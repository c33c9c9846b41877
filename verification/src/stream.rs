//! The render pass and the fragment stream that follows it.
//!
//! A [`RenderPass`] assembles the initial document. Each boundary is probed
//! once; one that read nothing unresolved is rendered in place, one that did
//! gets a fallback container and a registration under the next fragment
//! identifier. Finishing the pass hands out the document together with the
//! [`FragmentStream`], so no fragment exists before the document does.
//!
//! The stream follows each registration from pending to resolved or aborted:
//! it counts resolutions, says when a producer may run, turns a completed
//! producer into exactly one fragment event, and falls silent once the
//! transport is closed.

use crate::document::{
    container_keys, lemma_keys_of_longer_document, occurrences, Document, PartView,
};
use crate::fragment::{
    fragment_chunk, fragment_key, lemma_fragment_key_injective, wrap_fragment, FragmentId,
};
use crate::suspense::SuspenseContext;
use vstd::prelude::*;

verus! {

/// The state of one boundary within one render pass.
#[derive(Clone, Copy, Debug, PartialEq, Eq, Structural)]
pub enum BoundaryState {
    /// The subtree is being rendered once to discover its reads.
    Probing,
    /// The probe read nothing unresolved; the real markup is in the document.
    Ready,
    /// The fallback is in the document and a producer is registered.
    Pending,
    /// The producer completed and its fragment went out.
    Resolved,
    /// The transport closed first; the registration was discarded.
    Aborted,
}

/// What can happen to a boundary.
#[derive(Clone, Copy, Debug, PartialEq, Eq, Structural)]
pub enum Trigger {
    /// The probe ended with this many reads outstanding.
    ProbeFinished { pending: u64 },
    /// The deferred producer of the boundary completed.
    ProducerCompleted,
    /// The transport of the document closed.
    TransportClosed,
}

impl BoundaryState {
    /// The state that follows `self` on `trigger`. A trigger that does not
    /// apply leaves the state as it is.
    pub open spec fn after(self, trigger: Trigger) -> BoundaryState {
        match (self, trigger) {
            (BoundaryState::Probing, Trigger::ProbeFinished { pending }) => if pending == 0 {
                BoundaryState::Ready
            } else {
                BoundaryState::Pending
            },
            (BoundaryState::Probing, Trigger::TransportClosed) => BoundaryState::Aborted,
            (BoundaryState::Pending, Trigger::ProducerCompleted) => BoundaryState::Resolved,
            (BoundaryState::Pending, Trigger::TransportClosed) => BoundaryState::Aborted,
            _ => self,
        }
    }

    /// Whether nothing can follow this state.
    pub open spec fn is_terminal(self) -> bool {
        self is Ready || self is Resolved || self is Aborted
    }

    /// Whether this is a state of a registered boundary.
    pub open spec fn is_registered(self) -> bool {
        self is Pending || self is Resolved || self is Aborted
    }

    /// Moves to the state that follows on `trigger`.
    pub fn step(self, trigger: Trigger) -> (next: BoundaryState)
        ensures
            next == self.after(trigger),
    {
        match (self, trigger) {
            (BoundaryState::Probing, Trigger::ProbeFinished { pending }) => if pending == 0 {
                BoundaryState::Ready
            } else {
                BoundaryState::Pending
            },
            (BoundaryState::Probing, Trigger::TransportClosed) => BoundaryState::Aborted,
            (BoundaryState::Pending, Trigger::ProducerCompleted) => BoundaryState::Resolved,
            (BoundaryState::Pending, Trigger::TransportClosed) => BoundaryState::Aborted,
            _ => self,
        }
    }

    /// Whether nothing can follow this state.
    pub fn terminal(self) -> (terminal: bool)
        ensures
            terminal == self.is_terminal(),
    {
        match self {
            BoundaryState::Ready | BoundaryState::Resolved | BoundaryState::Aborted => true,
            _ => false,
        }
    }
}

/// Terminal states are final, and the outcome of the probe is decided once:
/// whatever happens after the probe finished, a later probe result does not
/// move the boundary.
pub proof fn lemma_decided_once(state: BoundaryState, first: u64, later: Trigger, again: u64)
    ensures
        state.is_terminal() ==> state.after(later) == state,
        ({
            let decided = BoundaryState::Probing.after(Trigger::ProbeFinished { pending: first });
            &&& decided == if first == 0 {
                BoundaryState::Ready
            } else {
                BoundaryState::Pending
            }
            &&& decided.after(Trigger::ProbeFinished { pending: again }) == decided
            &&& decided.after(later).after(Trigger::ProbeFinished { pending: again })
                == decided.after(later)
        }),
{
}

/// A resolved fragment on its way to the client.
#[derive(Clone, Debug, PartialEq, Eq)]
pub struct FragmentEvent {
    /// The key of the boundary the fragment belongs to.
    pub fragment_id: String,
    /// The markup that replaces the fallback.
    pub markup: String,
}

/// What a [`FragmentEvent`] holds, as plain text.
pub struct FragmentEventView {
    pub fragment_id: Seq<char>,
    pub markup: Seq<char>,
}

impl View for FragmentEvent {
    type V = FragmentEventView;

    open spec fn view(&self) -> FragmentEventView {
        FragmentEventView { fragment_id: self.fragment_id@, markup: self.markup@ }
    }
}

impl FragmentEvent {
    /// Renders the event in its wire form, which carries the key along with
    /// the markup.
    pub fn to_chunk(&self) -> (chunk: String)
        ensures
            chunk@ == fragment_chunk(self@.fragment_id, self@.markup),
    {
        wrap_fragment(self.fragment_id.as_str(), self.markup.as_str())
    }
}

/// The markup sent in place of a fragment whose producer failed.
pub open spec fn error_placeholder() -> Seq<char> {
    "<div data-fragment-error=\"\"></div>"@
}

/// The markup a fragment carries for the outcome of its producer: what the
/// producer rendered, or the error placeholder when it failed.
pub open spec fn produced_markup(outcome: Result<String, String>) -> Seq<char> {
    match outcome {
        Ok(markup) => markup@,
        Err(_) => error_placeholder(),
    }
}

/// What a resolution notification meant to the stream.
#[derive(Clone, Copy, Debug, PartialEq, Eq, Structural)]
pub enum Resolution {
    /// No boundary is registered under that order.
    Unknown,
    /// The boundary is no longer pending; the notification was dropped.
    Dropped,
    /// No read was outstanding; the count stays at zero.
    Unmatched,
    /// Other reads of the boundary are still outstanding.
    Waiting,
    /// That was the last outstanding read: the producer may run now.
    Settled(FragmentId),
}

/// The render pass, as contracts see it.
pub struct RenderPassView {
    /// The document instance the pass renders.
    pub document: u64,
    /// The parts of the initial document so far.
    pub parts: Seq<PartView>,
    /// The outstanding reads of each suspended boundary, by order.
    pub pending: Seq<nat>,
}

impl RenderPassView {
    /// What holds of every render pass: the containers of the document carry
    /// the keys of the suspended boundaries, in order of discovery, and every
    /// suspended boundary has reads outstanding.
    pub open spec fn wf(self) -> bool {
        &&& container_keys(self.parts) == Seq::new(
            self.pending.len(),
            |order: int| fragment_key(self.document as nat, order as nat),
        )
        &&& forall|order: int| 0 <= order < self.pending.len() ==> #[trigger] self.pending[order] > 0
    }

    /// The pass after static markup was added.
    pub open spec fn with_markup(self, markup: Seq<char>) -> RenderPassView {
        RenderPassView { parts: self.parts.push(PartView::Markup(markup)), ..self }
    }

    /// The pass after a boundary with `reads` outstanding reads was suspended:
    /// its fallback stands in a container under the next key.
    pub open spec fn suspended(self, fallback: Seq<char>, reads: nat) -> RenderPassView {
        RenderPassView {
            parts: self.parts.push(
                PartView::Container {
                    key: fragment_key(self.document as nat, self.pending.len()),
                    content: fallback,
                },
            ),
            pending: self.pending.push(reads),
            ..self
        }
    }
}

/// The fragment stream, as contracts see it.
pub struct StreamView {
    /// The document instance the stream belongs to.
    pub document: u64,
    /// The state of each registered boundary, by order.
    pub states: Seq<BoundaryState>,
    /// The outstanding reads of each registered boundary, by order.
    pub pending: Seq<nat>,
    /// Whether the transport was closed.
    pub closed: bool,
}

impl StreamView {
    /// What holds of every stream: one count per boundary, registered states
    /// only, and nothing pending once the transport is closed.
    pub open spec fn wf(self) -> bool {
        &&& self.states.len() == self.pending.len()
        &&& forall|i: int| 0 <= i < self.states.len() ==> (#[trigger] self.states[i]).is_registered()
        &&& self.closed ==> forall|i: int|
            0 <= i < self.states.len() ==> !(#[trigger] self.states[i] is Pending)
    }

    /// Whether a boundary is registered under `order`.
    pub open spec fn registers(self, order: int) -> bool {
        0 <= order < self.states.len()
    }

    /// The key of the boundary registered under `order`.
    pub open spec fn key(self, order: int) -> Seq<char> {
        fragment_key(self.document as nat, order as nat)
    }

    /// The keys of all registered boundaries, by order.
    pub open spec fn keys(self) -> Seq<Seq<char>> {
        Seq::new(self.states.len(), |order: int| self.key(order))
    }

    /// Whether the boundary under `order` still waits for its fragment.
    pub open spec fn awaits(self, order: int) -> bool {
        self.registers(order) && self.states[order] is Pending
    }

    /// Whether the producer of the boundary under `order` may complete now:
    /// the boundary is pending and all its reads have settled.
    pub open spec fn can_complete(self, order: int) -> bool {
        self.awaits(order) && self.pending[order] == 0
    }

    /// What a resolution notification for `order` means.
    pub open spec fn resolution(self, order: int) -> Resolution {
        if !self.registers(order) {
            Resolution::Unknown
        } else if !(self.states[order] is Pending) {
            Resolution::Dropped
        } else if self.pending[order] == 0 {
            Resolution::Unmatched
        } else if self.pending[order] == 1 {
            Resolution::Settled(FragmentId { document: self.document, order: order as u64 })
        } else {
            Resolution::Waiting
        }
    }

    /// The stream after a resolution notification for `order`.
    pub open spec fn after_resolution(self, order: int) -> StreamView {
        if self.awaits(order) && self.pending[order] > 0 {
            StreamView {
                pending: self.pending.update(order, (self.pending[order] - 1) as nat),
                ..self
            }
        } else {
            self
        }
    }

    /// The stream after the producer of `order` reported completion.
    pub open spec fn after_completion(self, order: int) -> StreamView {
        if self.can_complete(order) {
            StreamView {
                states: self.states.update(
                    order,
                    self.states[order].after(Trigger::ProducerCompleted),
                ),
                ..self
            }
        } else {
            self
        }
    }

    /// The stream after the transport closed.
    pub open spec fn after_close(self) -> StreamView {
        StreamView {
            states: Seq::new(
                self.states.len(),
                |order: int| self.states[order].after(Trigger::TransportClosed),
            ),
            closed: true,
            ..self
        }
    }
}

/// Every step keeps a stream well formed.
pub proof fn lemma_steps_keep_stream_well_formed(stream: StreamView, order: int)
    requires
        stream.wf(),
    ensures
        stream.after_resolution(order).wf(),
        stream.after_completion(order).wf(),
        stream.after_close().wf(),
{
}

/// Once the transport is closed no producer can complete any more, whatever
/// resolutions and completions are still reported: the pending boundaries are
/// aborted and stay so.
pub proof fn lemma_closed_stream_is_silent(stream: StreamView, order: int, other: int)
    requires
        stream.wf(),
    ensures
        !stream.after_close().can_complete(order),
        !stream.after_close().after_resolution(other).can_complete(order),
        !stream.after_close().after_completion(other).can_complete(order),
        stream.awaits(order) ==> stream.after_close().states[order] == BoundaryState::Aborted,
        stream.registers(order) && !stream.awaits(order) ==> stream.after_close().states[order]
            == stream.states[order],
{
}

/// A registration is consumed exactly once: after its producer completed the
/// boundary is resolved, and a second completion yields nothing.
pub proof fn lemma_consumed_once(stream: StreamView, order: int)
    requires
        stream.wf(),
        stream.can_complete(order),
    ensures
        stream.after_completion(order).states[order] == BoundaryState::Resolved,
        !stream.after_completion(order).can_complete(order),
        stream.after_completion(order).after_completion(order) == stream.after_completion(order),
{
}

/// Boundaries are independent: what is reported for one boundary neither
/// enables nor blocks another, so fragments go out in the order in which
/// their producers complete, not in the order of discovery.
pub proof fn lemma_boundaries_independent(stream: StreamView, order: int, other: int)
    requires
        stream.wf(),
        order != other,
    ensures
        stream.after_resolution(other).can_complete(order) == stream.can_complete(order),
        stream.after_completion(other).can_complete(order) == stream.can_complete(order),
        stream.after_resolution(other).resolution(order) == stream.resolution(order),
{
}

/// The keys of a stream are pairwise distinct.
pub proof fn lemma_stream_keys_distinct(stream: StreamView)
    ensures
        stream.keys().no_duplicates(),
{
    assert forall|i: int, j: int|
        0 <= i < stream.keys().len() && 0 <= j < stream.keys().len() && i != j implies stream.keys()[i]
        != stream.keys()[j] by {
        if stream.key(i) == stream.key(j) {
            lemma_fragment_key_injective(
                stream.document as nat,
                i as nat,
                stream.document as nat,
                j as nat,
            );
        }
    }
}

/// A key that none of the containers carries does not occur in the document.
pub proof fn lemma_absent_key_never_occurs(parts: Seq<PartView>, key: Seq<char>)
    requires
        !container_keys(parts).contains(key),
    ensures
        occurrences(parts, key) == 0,
    decreases parts.len(),
{
    if parts.len() > 0 {
        let front = parts.drop_last();
        let keys = container_keys(front);
        match parts.last() {
            PartView::Container { key: k, .. } => {
                assert(keys.push(k).last() == k);
                assert forall|i: int| 0 <= i < keys.len() implies keys[i] != key by {
                    assert(keys.push(k)[i] == keys[i]);
                }
            },
            PartView::Markup(_) => {},
        }
        lemma_absent_key_never_occurs(front, key);
    }
}

/// In a document whose containers carry pairwise distinct keys, each of those
/// keys occurs exactly once.
pub proof fn lemma_distinct_keys_occur_once(parts: Seq<PartView>, key: Seq<char>)
    requires
        container_keys(parts).no_duplicates(),
        container_keys(parts).contains(key),
    ensures
        occurrences(parts, key) == 1,
    decreases parts.len(),
{
    if parts.len() > 0 {
        let front = parts.drop_last();
        let keys = container_keys(front);
        match parts.last() {
            PartView::Container { key: k, .. } => {
                let all = keys.push(k);
                assert(all == container_keys(parts));
                assert forall|i: int, j: int|
                    0 <= i < keys.len() && 0 <= j < keys.len() && i != j implies keys[i]
                    != keys[j] by {
                    assert(all[i] == keys[i] && all[j] == keys[j]);
                }
                if k == key {
                    assert forall|i: int| 0 <= i < keys.len() implies keys[i] != key by {
                        assert(all[i] == keys[i]);
                        assert(all[keys.len() as int] == k);
                    }
                    lemma_absent_key_never_occurs(front, key);
                } else {
                    let at = choose|i: int| 0 <= i < all.len() && all[i] == key;
                    assert(at < keys.len());
                    assert(keys[at] == key);
                    lemma_distinct_keys_occur_once(front, key);
                }
            },
            PartView::Markup(_) => {
                lemma_distinct_keys_occur_once(front, key);
            },
        }
    }
}

/// Fragment identity: when the containers of the initial document carry the
/// keys of the stream, the key of every registered boundary occurs in
/// exactly one container of that document.
pub proof fn lemma_fragment_identity(parts: Seq<PartView>, stream: StreamView, order: int)
    requires
        container_keys(parts) == stream.keys(),
        stream.registers(order),
    ensures
        occurrences(parts, stream.key(order)) == 1,
{
    lemma_stream_keys_distinct(stream);
    assert(stream.keys()[order] == stream.key(order));
    lemma_distinct_keys_occur_once(parts, stream.key(order));
}

/// One render pass over one document.
pub struct RenderPass {
    document: u64,
    head: Document,
    contexts: Vec<SuspenseContext>,
}

impl View for RenderPass {
    type V = RenderPassView;

    closed spec fn view(&self) -> RenderPassView {
        RenderPassView {
            document: self.document,
            parts: self.head@,
            pending: self.contexts@.map_values(|context: SuspenseContext| context.pending_count()),
        }
    }
}

impl RenderPass {
    /// Starts the render pass of the document instance `document`.
    pub fn new(document: u64) -> (pass: Self)
        ensures
            pass@.wf(),
            pass@ == (RenderPassView {
                document,
                parts: Seq::<PartView>::empty(),
                pending: Seq::<nat>::empty(),
            }),
    {
        let pass = RenderPass { document, head: Document::new(), contexts: Vec::new() };
        assert(pass@.pending =~= Seq::<nat>::empty());
        assert(container_keys(pass@.parts) =~= Seq::new(
            0,
            |order: int| fragment_key(document as nat, order as nat),
        ));
        pass
    }

    /// The document instance this pass renders.
    pub fn document(&self) -> (document: u64)
        ensures
            document == self@.document,
    {
        self.document
    }

    /// How many boundaries the pass has suspended so far.
    pub fn suspended_count(&self) -> (count: usize)
        ensures
            count == self@.pending.len(),
    {
        self.contexts.len()
    }

    /// Appends static markup to the initial document.
    pub fn push_markup(&mut self, markup: String)
        requires
            old(self)@.wf(),
        ensures
            final(self)@.wf(),
            final(self)@ == old(self)@.with_markup(markup@),
    {
        proof {
            lemma_keys_of_longer_document(self.head@, PartView::Markup(markup@));
        }
        self.head.push_markup(markup);
    }

    /// Decides a boundary from the context its probe left behind, once and for
    /// all. With no read outstanding the boundary is ready: nothing is
    /// registered, the document is untouched and `None` is returned, and the
    /// caller renders the subtree in place. Otherwise the boundary is pending:
    /// `fallback` enters the document inside a container under the next
    /// fragment identifier, the context is registered under it, and the
    /// identifier is returned.
    pub fn settle(&mut self, context: SuspenseContext, fallback: String) -> (id: Option<FragmentId>)
        requires
            old(self)@.wf(),
        ensures
            final(self)@.wf(),
            context.pending_count() == 0 ==> id is None && final(self)@ == old(self)@,
            context.pending_count() > 0 ==> id == Some(
                FragmentId {
                    document: old(self)@.document,
                    order: old(self)@.pending.len() as u64,
                },
            ) && final(self)@ == old(self)@.suspended(fallback@, context.pending_count()),
    {
        let decided = BoundaryState::Probing.step(
            Trigger::ProbeFinished { pending: context.pending() },
        );
        match decided {
            BoundaryState::Pending => {
                let id = FragmentId { document: self.document, order: self.contexts.len() as u64 };
                let key = id.key();
                proof {
                    lemma_keys_of_longer_document(
                        self.head@,
                        PartView::Container { key: key@, content: fallback@ },
                    );
                }
                self.head.push_container(key, fallback);
                self.contexts.push(context);
                proof {
                    assert(self@.pending =~= old(self)@.pending.push(context.pending_count()));
                    assert(container_keys(self@.parts) =~= Seq::new(
                        self@.pending.len(),
                        |order: int| fragment_key(self@.document as nat, order as nat),
                    ));
                }
                Some(id)
            },
            _ => None,
        }
    }

    /// Ends the render pass. Hands out the initial document, which is to be
    /// sent first, and the stream that will deliver the fragments of the
    /// suspended boundaries. The containers of the document carry exactly the
    /// keys of the stream, every boundary is pending, and each still has reads
    /// outstanding.
    pub fn finish(self) -> (out: (Document, FragmentStream))
        requires
            self@.wf(),
        ensures
            out.0@ == self@.parts,
            out.1@ == (StreamView {
                document: self@.document,
                states: Seq::new(self@.pending.len(), |order: int| BoundaryState::Pending),
                pending: self@.pending,
                closed: false,
            }),
            out.1@.wf(),
            container_keys(out.0@) == out.1@.keys(),
            forall|order: int| 0 <= order < out.1@.pending.len() ==> out.1@.pending[order] > 0,
    {
        let mut states: Vec<BoundaryState> = Vec::new();
        let mut i: usize = 0;
        while i < self.contexts.len()
            invariant
                i <= self.contexts.len(),
                states.len() == i,
                forall|j: int| 0 <= j < i ==> states[j] == BoundaryState::Pending,
            decreases self.contexts.len() - i,
        {
            states.push(BoundaryState::Pending);
            i = i + 1;
        }
        let stream = FragmentStream {
            document: self.document,
            contexts: self.contexts,
            states,
            closed: false,
        };
        proof {
            assert(stream@.states =~= Seq::new(
                self@.pending.len(),
                |order: int| BoundaryState::Pending,
            ));
            assert(stream@.pending =~= self@.pending);
            assert(container_keys(self.head@) =~= stream@.keys());
        }
        (self.head, stream)
    }
}

/// The deferred fragments of one document.
pub struct FragmentStream {
    document: u64,
    contexts: Vec<SuspenseContext>,
    states: Vec<BoundaryState>,
    closed: bool,
}

impl View for FragmentStream {
    type V = StreamView;

    closed spec fn view(&self) -> StreamView {
        StreamView {
            document: self.document,
            states: self.states@,
            pending: self.contexts@.map_values(|context: SuspenseContext| context.pending_count()),
            closed: self.closed,
        }
    }
}

impl FragmentStream {
    /// How many boundaries are registered.
    pub fn len(&self) -> (len: usize)
        ensures
            len == self@.states.len(),
    {
        self.states.len()
    }

    /// Whether the transport was closed.
    pub fn is_closed(&self) -> (closed: bool)
        ensures
            closed == self@.closed,
    {
        self.closed
    }

    /// The state of the boundary registered under `order`, if there is one.
    pub fn state(&self, order: u64) -> (state: Option<BoundaryState>)
        ensures
            state == if self@.registers(order as int) {
                Some(self@.states[order as int])
            } else {
                None
            },
    {
        if order < self.states.len() as u64 {
            Some(self.states[order as usize])
        } else {
            None
        }
    }

    /// The outstanding reads of the boundary registered under `order`, if
    /// there is one.
    pub fn pending(&self, order: u64) -> (pending: Option<u64>)
        requires
            self@.wf(),
        ensures
            match pending {
                Some(count) => self@.registers(order as int) && count == self@.pending[order as int],
                None => !self@.registers(order as int),
            },
    {
        if order < self.contexts.len() as u64 {
            Some(self.contexts[order as usize].pending())
        } else {
            None
        }
    }

    /// Records that a read of the boundary under `order` settled, and says
    /// what follows: with the last outstanding read settled the producer of
    /// the boundary may run. A notification for a boundary that is unknown or
    /// no longer pending, or one that answers no outstanding read, changes
    /// nothing.
    pub fn track_resolution(&mut self, order: u64) -> (resolution: Resolution)
        requires
            old(self)@.wf(),
        ensures
            final(self)@.wf(),
            resolution == old(self)@.resolution(order as int),
            final(self)@ == old(self)@.after_resolution(order as int),
    {
        if order >= self.states.len() as u64 {
            return Resolution::Unknown;
        }
        let at = order as usize;
        match self.states[at] {
            BoundaryState::Pending => {},
            _ => {
                return Resolution::Dropped;
            },
        }
        let matched = self.contexts[at].track_resolution();
        proof {
            if matched {
                assert(self@.pending =~= old(self)@.pending.update(
                    at as int,
                    (old(self)@.pending[at as int] - 1) as nat,
                ));
            } else {
                assert(self@.pending =~= old(self)@.pending);
            }
        }
        if !matched {
            Resolution::Unmatched
        } else if self.contexts[at].is_ready() {
            Resolution::Settled(FragmentId { document: self.document, order })
        } else {
            Resolution::Waiting
        }
    }

    /// Reports that the producer of the boundary under `order` completed with
    /// `outcome`. If the boundary is pending and all its reads have settled,
    /// it becomes resolved and the one fragment event of the boundary is
    /// returned: it carries the key of the boundary and the markup the
    /// producer rendered, or the error placeholder if the producer failed. In
    /// every other case (unknown order, reads outstanding, already resolved,
    /// aborted because the transport closed) nothing is returned and nothing
    /// changes.
    pub fn complete(&mut self, order: u64, outcome: Result<String, String>) -> (event: Option<
        FragmentEvent,
    >)
        requires
            old(self)@.wf(),
        ensures
            final(self)@.wf(),
            final(self)@ == old(self)@.after_completion(order as int),
            old(self)@.can_complete(order as int) ==> (event matches Some(e) && e@.fragment_id
                == old(self)@.key(order as int) && e@.markup == produced_markup(outcome)),
            !old(self)@.can_complete(order as int) ==> event is None,
    {
        if order >= self.states.len() as u64 {
            return None;
        }
        let at = order as usize;
        match self.states[at] {
            BoundaryState::Pending => {},
            _ => {
                return None;
            },
        }
        if !self.contexts[at].is_ready() {
            return None;
        }
        let next = self.states[at].step(Trigger::ProducerCompleted);
        self.states.set(at, next);
        let id = FragmentId { document: self.document, order };
        let markup = match outcome {
            Ok(markup) => markup,
            Err(_) => "<div data-fragment-error=\"\"></div>".to_owned(),
        };
        proof {
            assert(self@.pending =~= old(self)@.pending);
        }
        Some(FragmentEvent { fragment_id: id.key(), markup })
    }

    /// Records that the transport closed: every pending boundary is aborted,
    /// and from now on no fragment is produced.
    pub fn close(&mut self)
        requires
            old(self)@.wf(),
        ensures
            final(self)@.wf(),
            final(self)@ == old(self)@.after_close(),
    {
        let mut i: usize = 0;
        while i < self.states.len()
            invariant
                i <= self.states.len(),
                self.states.len() == old(self).states.len(),
                self.contexts == old(self).contexts,
                self.document == old(self).document,
                self.closed == old(self).closed,
                old(self)@.wf(),
                forall|j: int|
                    0 <= j < i ==> #[trigger] self.states[j] == old(self).states[j].after(
                        Trigger::TransportClosed,
                    ),
                forall|j: int| i <= j < self.states.len() ==> #[trigger] self.states[j] == old(self).states[j],
            decreases self.states.len() - i,
        {
            let next = self.states[i].step(Trigger::TransportClosed);
            self.states.set(i, next);
            i = i + 1;
        }
        self.closed = true;
        proof {
            assert(self@.states =~= old(self)@.after_close().states);
        }
    }
}

} // verus!
