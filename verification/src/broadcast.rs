//! A broadcast channel for live updates.
//!
//! Every published value reaches every subscriber that is attached at that
//! moment. A subscriber that joins is first handed the current value, so it
//! does not wait for the next publication with nothing to show. Publishing
//! never waits for a consumer: each subscriber keeps only the latest value it
//! has not received yet, and a newer one takes its place.

use crate::text::{push_signed_decimal, signed_decimal};
use vstd::prelude::*;

verus! {

/// What the channel holds for one subscriber.
pub struct Subscriber<T> {
    /// The current value handed over on attach, until it is received.
    pub seed: Option<T>,
    /// The latest published value that was not received yet.
    pub latest: Option<T>,
    /// Whether the subscriber is still attached.
    pub attached: bool,
}

impl<T> Subscriber<T> {
    /// A subscriber that has just attached while `current` was the state.
    pub open spec fn joined(current: T) -> Subscriber<T> {
        Subscriber { seed: Some(current), latest: None, attached: true }
    }

    /// A subscriber that has left: nothing is kept for it.
    pub open spec fn left() -> Subscriber<T> {
        Subscriber { seed: None, latest: None, attached: false }
    }

    /// The subscriber after `value` was published.
    pub open spec fn after_publish(self, value: T) -> Subscriber<T> {
        if self.attached {
            Subscriber { latest: Some(value), ..self }
        } else {
            self
        }
    }

    /// The value the subscriber receives next, if one is waiting: the seed
    /// first, then the latest publication.
    pub open spec fn next_value(self) -> Option<T> {
        if !self.attached {
            None
        } else if self.seed is Some {
            self.seed
        } else {
            self.latest
        }
    }

    /// The subscriber after it received its next value.
    pub open spec fn after_receive(self) -> Subscriber<T> {
        if !self.attached {
            self
        } else if self.seed is Some {
            Subscriber { seed: None, ..self }
        } else {
            Subscriber { latest: None, ..self }
        }
    }

    /// The values waiting for the subscriber, in the order of delivery.
    pub open spec fn waiting(self) -> Seq<T> {
        if !self.attached {
            Seq::empty()
        } else {
            (match self.seed {
                Some(seed) => seq![seed],
                None => Seq::empty(),
            }) + (match self.latest {
                Some(latest) => seq![latest],
                None => Seq::empty(),
            })
        }
    }
}

/// Fan-out: after `value` was published, an attached subscriber receives it
/// next, or right after the seed if the seed is still waiting.
pub proof fn lemma_published_value_is_next<T>(subscriber: Subscriber<T>, value: T)
    requires
        subscriber.attached,
    ensures
        subscriber.seed is None ==> subscriber.after_publish(value).next_value() == Some(value),
        subscriber.seed is Some ==> subscriber.after_publish(value).next_value()
            == subscriber.seed && subscriber.after_publish(value).after_receive().next_value()
            == Some(value),
        subscriber.after_publish(value).seed == subscriber.seed,
{
}

/// One thing that happens to a subscriber.
pub enum Traffic<T> {
    /// A value was published.
    Published(T),
    /// The subscriber asked for its next value.
    Asked,
}

/// The subscriber after `traffic`, oldest first.
pub open spec fn subscriber_after<T>(start: Subscriber<T>, traffic: Seq<Traffic<T>>) -> Subscriber<
    T,
>
    decreases traffic.len(),
{
    if traffic.len() == 0 {
        start
    } else {
        let before = subscriber_after(start, traffic.drop_last());
        match traffic.last() {
            Traffic::Published(value) => before.after_publish(value),
            Traffic::Asked => before.after_receive(),
        }
    }
}

/// The values the subscriber received during `traffic`, oldest first.
pub open spec fn received_during<T>(start: Subscriber<T>, traffic: Seq<Traffic<T>>) -> Seq<T>
    decreases traffic.len(),
{
    if traffic.len() == 0 {
        Seq::empty()
    } else {
        let before = subscriber_after(start, traffic.drop_last());
        let earlier = received_during(start, traffic.drop_last());
        match traffic.last() {
            Traffic::Published(_) => earlier,
            Traffic::Asked => match before.next_value() {
                Some(value) => earlier.push(value),
                None => earlier,
            },
        }
    }
}

/// The values published during `traffic`, oldest first.
pub open spec fn published_during<T>(traffic: Seq<Traffic<T>>) -> Seq<T>
    decreases traffic.len(),
{
    if traffic.len() == 0 {
        Seq::empty()
    } else {
        match traffic.last() {
            Traffic::Published(value) => published_during(traffic.drop_last()).push(value),
            Traffic::Asked => published_during(traffic.drop_last()),
        }
    }
}

/// Whether `part` can be had from `whole` by leaving values out, keeping the
/// order of the rest.
pub open spec fn in_order_of<T>(part: Seq<T>, whole: Seq<T>) -> bool
    decreases whole.len(),
{
    if part.len() == 0 {
        true
    } else if whole.len() == 0 {
        false
    } else {
        (part.last() == whole.last() && in_order_of(part.drop_last(), whole.drop_last()))
            || in_order_of(part, whole.drop_last())
    }
}

proof fn lemma_in_order_without_last<T>(part: Seq<T>, whole: Seq<T>)
    requires
        part.len() > 0,
        in_order_of(part, whole),
    ensures
        in_order_of(part.drop_last(), whole),
    decreases whole.len(),
{
    if whole.len() > 0 {
        if part.last() == whole.last() && in_order_of(part.drop_last(), whole.drop_last()) {
            lemma_in_order_longer(part.drop_last(), whole.drop_last(), whole.last());
            assert(whole.drop_last().push(whole.last()) =~= whole);
        } else {
            lemma_in_order_without_last(part, whole.drop_last());
            lemma_in_order_longer(part.drop_last(), whole.drop_last(), whole.last());
            assert(whole.drop_last().push(whole.last()) =~= whole);
        }
    }
}

proof fn lemma_in_order_longer<T>(part: Seq<T>, whole: Seq<T>, value: T)
    requires
        in_order_of(part, whole),
    ensures
        in_order_of(part, whole.push(value)),
        in_order_of(part.push(value), whole.push(value)),
{
    assert(whole.push(value).drop_last() =~= whole);
    assert(part.push(value).drop_last() =~= part);
}

/// Publish order: whatever is published and whenever the subscriber asks, the
/// values it receives, followed by those still waiting for it, are the seed
/// and then published values, in the order of publication. Values may be
/// left out, because a newer value replaces an unreceived older one; none is
/// repeated or overtaken.
pub proof fn lemma_received_in_publish_order<T>(current: T, traffic: Seq<Traffic<T>>)
    ensures
        subscriber_after(Subscriber::joined(current), traffic).attached,
        in_order_of(
            received_during(Subscriber::joined(current), traffic) + subscriber_after(
                Subscriber::joined(current),
                traffic,
            ).waiting(),
            seq![current] + published_during(traffic),
        ),
    decreases traffic.len(),
{
    let start = Subscriber::joined(current);
    if traffic.len() == 0 {
        let all = seq![current] + published_during(traffic);
        let got = received_during(start, traffic) + start.waiting();
        assert(got =~= seq![current]);
        assert(all =~= seq![current]);
        assert(got.drop_last() =~= Seq::<T>::empty());
        assert(in_order_of(got.drop_last(), all.drop_last()));
    } else {
        let earlier = traffic.drop_last();
        lemma_received_in_publish_order(current, earlier);
        let before = subscriber_after(start, earlier);
        let got = received_during(start, earlier) + before.waiting();
        let offered = seq![current] + published_during(earlier);
        match traffic.last() {
            Traffic::Published(value) => {
                let after = before.after_publish(value);
                let kept = received_during(start, earlier) + (match before.seed {
                    Some(seed) => seq![seed],
                    None => Seq::empty(),
                });
                if before.latest is Some {
                    assert(got.drop_last() =~= kept);
                    lemma_in_order_without_last(got, offered);
                } else {
                    assert(got =~= kept);
                }
                lemma_in_order_longer(kept, offered, value);
                assert(received_during(start, traffic) + after.waiting() =~= kept.push(value));
                assert(seq![current] + published_during(traffic) =~= offered.push(value));
            },
            Traffic::Asked => {
                let after = before.after_receive();
                assert(received_during(start, traffic) + after.waiting() =~= got);
                assert(seq![current] + published_during(traffic) =~= offered);
            },
        }
    }
}

/// The channel: one slot per subscriber, by the number it was given on
/// attach.
pub struct Channel<T> {
    subscribers: Vec<Subscriber<T>>,
}

impl<T> View for Channel<T> {
    type V = Seq<Subscriber<T>>;

    closed spec fn view(&self) -> Seq<Subscriber<T>> {
        self.subscribers@
    }
}

impl<T: Copy> Channel<T> {
    /// A channel without subscribers.
    pub fn new() -> (channel: Self)
        ensures
            channel@ == Seq::<Subscriber<T>>::empty(),
    {
        Channel { subscribers: Vec::new() }
    }

    /// How many subscribers have ever attached.
    pub fn len(&self) -> (len: usize)
        ensures
            len == self@.len(),
    {
        self.subscribers.len()
    }

    /// Attaches a subscriber and returns its number. `current` is the state
    /// at this moment, which the caller has just read; the subscriber receives
    /// it first. Publications made before the attach do not reach it.
    pub fn subscribe(&mut self, current: T) -> (id: usize)
        ensures
            id == old(self)@.len(),
            final(self)@ == old(self)@.push(Subscriber::joined(current)),
    {
        let id = self.subscribers.len();
        self.subscribers.push(Subscriber { seed: Some(current), latest: None, attached: true });
        id
    }

    /// Detaches subscriber `id`; what was waiting for it is dropped. Returns
    /// whether it was attached.
    pub fn unsubscribe(&mut self, id: usize) -> (was_attached: bool)
        ensures
            was_attached == (id < old(self)@.len() && old(self)@[id as int].attached),
            final(self)@ == if id < old(self)@.len() {
                old(self)@.update(id as int, Subscriber::left())
            } else {
                old(self)@
            },
    {
        if id < self.subscribers.len() {
            let was_attached = self.subscribers[id].attached;
            self.subscribers.set(id, Subscriber { seed: None, latest: None, attached: false });
            was_attached
        } else {
            false
        }
    }

    /// Publishes `value` to every attached subscriber, replacing for each the
    /// publication it has not received yet. Returns how many subscribers were
    /// reached. Never waits and never fails, however slow the consumers.
    pub fn publish(&mut self, value: T) -> (reached: usize)
        ensures
            final(self)@.len() == old(self)@.len(),
            forall|id: int|
                0 <= id < old(self)@.len() ==> #[trigger] final(self)@[id] == old(
                    self,
                )@[id].after_publish(value),
            reached == old(self)@.filter(|s: Subscriber<T>| s.attached).len(),
    {
        let mut reached: usize = 0;
        let mut i: usize = 0;
        while i < self.subscribers.len()
            invariant
                i <= self.subscribers.len(),
                self.subscribers.len() == old(self).subscribers.len(),
                reached <= i,
                reached == old(self)@.take(i as int).filter(|s: Subscriber<T>| s.attached).len(),
                forall|j: int|
                    0 <= j < i ==> #[trigger] self.subscribers[j] == old(
                        self,
                    ).subscribers[j].after_publish(value),
                forall|j: int|
                    i <= j < self.subscribers.len() ==> #[trigger] self.subscribers[j] == old(
                        self,
                    ).subscribers[j],
            decreases self.subscribers.len() - i,
        {
            proof {
                let upto = old(self)@.take(i as int + 1);
                assert(upto.drop_last() =~= old(self)@.take(i as int));
                reveal(Seq::filter);
            }
            if self.subscribers[i].attached {
                let seed = self.subscribers[i].seed;
                self.subscribers.set(i, Subscriber { seed, latest: Some(value), attached: true });
                reached = reached + 1;
            }
            i = i + 1;
        }
        proof {
            assert(old(self)@.take(i as int) =~= old(self)@);
        }
        reached
    }

    /// Hands subscriber `id` its next value, if one is waiting: the seed
    /// first, then the latest publication. An unknown or detached subscriber
    /// gets nothing.
    pub fn receive(&mut self, id: usize) -> (value: Option<T>)
        ensures
            value == if id < old(self)@.len() {
                old(self)@[id as int].next_value()
            } else {
                None
            },
            final(self)@ == if id < old(self)@.len() {
                old(self)@.update(id as int, old(self)@[id as int].after_receive())
            } else {
                old(self)@
            },
    {
        if id >= self.subscribers.len() {
            return None;
        }
        let attached = self.subscribers[id].attached;
        let seed = self.subscribers[id].seed;
        let latest = self.subscribers[id].latest;
        if !attached {
            assert(self@ =~= old(self)@.update(id as int, old(self)@[id as int].after_receive()));
            None
        } else if seed.is_some() {
            self.subscribers.set(id, Subscriber { seed: None, latest, attached });
            seed
        } else {
            self.subscribers.set(id, Subscriber { seed, latest: None, attached });
            latest
        }
    }
}

/// The server-sent event that carries `value`.
pub open spec fn message_event(value: int) -> Seq<char> {
    "event: message\ndata: "@ + signed_decimal(value) + "\n\n"@
}

/// Renders the server-sent event that carries `value`.
pub fn sse_event(value: i64) -> (event: String)
    ensures
        event@ == message_event(value as int),
{
    let mut event = "event: message\ndata: ".to_owned();
    push_signed_decimal(&mut event, value);
    event.append("\n\n");
    event
}

/// Hands subscriber `id` of a channel of numbers its next value as a
/// server-sent event, if one is waiting.
pub fn next_event(channel: &mut Channel<i64>, id: usize) -> (event: Option<String>)
    ensures
        event.deep_view() == (if id < old(channel)@.len() {
            match old(channel)@[id as int].next_value() {
                Some(value) => Some(message_event(value as int)),
                None => None,
            }
        } else {
            None
        }),
        final(channel)@ == if id < old(channel)@.len() {
            old(channel)@.update(id as int, old(channel)@[id as int].after_receive())
        } else {
            old(channel)@
        },
{
    match channel.receive(id) {
        Some(value) => Some(sse_event(value)),
        None => None,
    }
}

} // verus!
