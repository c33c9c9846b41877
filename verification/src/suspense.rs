//! Per-boundary bookkeeping of asynchronous reads.
//!
//! A [`SuspenseContext`] counts the reads that were started under one boundary
//! and have not settled yet. The boundary is ready exactly when that count is
//! zero.

use vstd::prelude::*;

verus! {

/// One notification received by a suspense context.
pub enum ReadEvent {
    /// An asynchronous read started under the boundary.
    Started,
    /// A read reported that it settled (resolved or was cancelled).
    Settled,
}

/// The number of reads outstanding after `events`, starting from none.
///
/// A `Settled` event that finds no outstanding read leaves the count at zero.
pub open spec fn pending_after(events: Seq<ReadEvent>) -> nat
    decreases events.len(),
{
    if events.len() == 0 {
        0
    } else {
        let before = pending_after(events.drop_last());
        match events.last() {
            ReadEvent::Started => before + 1,
            ReadEvent::Settled => if before > 0 {
                (before - 1) as nat
            } else {
                0
            },
        }
    }
}

/// How many reads `events` started.
pub open spec fn reads_in(events: Seq<ReadEvent>) -> nat
    decreases events.len(),
{
    if events.len() == 0 {
        0
    } else {
        reads_in(events.drop_last()) + if events.last() is Started {
            1nat
        } else {
            0nat
        }
    }
}

/// How many resolutions `events` reported, matched or not.
pub open spec fn resolutions_in(events: Seq<ReadEvent>) -> nat
    decreases events.len(),
{
    if events.len() == 0 {
        0
    } else {
        resolutions_in(events.drop_last()) + if events.last() is Settled {
            1nat
        } else {
            0nat
        }
    }
}

/// Every resolution in `events` answers a read that started before it: no
/// prefix holds more resolutions than reads.
pub open spec fn every_resolution_matched(events: Seq<ReadEvent>) -> bool {
    forall|k: int|
        0 <= k <= events.len() ==> resolutions_in(#[trigger] events.take(k)) <= reads_in(
            events.take(k),
        )
}

/// Whatever the order of events, the outstanding count is never less than
/// reads minus resolutions; so a count of zero means that at least as many
/// resolutions as reads have arrived.
pub proof fn lemma_pending_lower_bound(events: Seq<ReadEvent>)
    ensures
        pending_after(events) >= reads_in(events) - resolutions_in(events),
        pending_after(events) <= reads_in(events),
    decreases events.len(),
{
    if events.len() > 0 {
        lemma_pending_lower_bound(events.drop_last());
    }
}

/// Pending-count balance: when every resolution answers an earlier read, the
/// outstanding count is exactly reads minus resolutions, so the boundary is
/// ready if and only if as many resolutions as reads have arrived.
pub proof fn lemma_pending_count_balance(events: Seq<ReadEvent>)
    requires
        every_resolution_matched(events),
    ensures
        pending_after(events) == reads_in(events) - resolutions_in(events),
        pending_after(events) == 0 <==> resolutions_in(events) == reads_in(events),
    decreases events.len(),
{
    assert(events.take(events.len() as int) =~= events);
    if events.len() > 0 {
        let front = events.drop_last();
        assert forall|k: int| 0 <= k <= front.len() implies resolutions_in(
            #[trigger] front.take(k),
        ) <= reads_in(front.take(k)) by {
            assert(front.take(k) =~= events.take(k));
        }
        lemma_pending_count_balance(front);
    }
}

/// A prefix of a history in which every resolution is matched is itself such
/// a history: readiness at any earlier moment obeys the same balance.
pub proof fn lemma_matched_prefix(events: Seq<ReadEvent>, n: int)
    requires
        every_resolution_matched(events),
        0 <= n <= events.len(),
    ensures
        every_resolution_matched(events.take(n)),
{
    let front = events.take(n);
    assert forall|k: int| 0 <= k <= front.len() implies resolutions_in(#[trigger] front.take(k))
        <= reads_in(front.take(k)) by {
        assert(front.take(k) =~= events.take(k));
    }
}

/// The read counter of one suspense boundary.
pub struct SuspenseContext {
    pending: u64,
    log: Ghost<Seq<ReadEvent>>,
}

impl SuspenseContext {
    #[verifier::type_invariant]
    spec fn counts_its_history(self) -> bool {
        self.pending as nat == pending_after(self.log@)
    }

    /// Every notification this context has received, oldest first.
    pub closed spec fn history(&self) -> Seq<ReadEvent> {
        self.log@
    }

    /// The number of reads still outstanding.
    pub open spec fn pending_count(&self) -> nat {
        pending_after(self.history())
    }

    /// Pending-count balance of a context: when every resolution it received
    /// answered an earlier read, it is ready if and only if it has received as
    /// many resolutions as reads.
    pub proof fn lemma_ready_iff_balanced(self)
        requires
            every_resolution_matched(self.history()),
        ensures
            self.pending_count() == 0 <==> resolutions_in(self.history()) == reads_in(
                self.history(),
            ),
            self.pending_count() == reads_in(self.history()) - resolutions_in(self.history()),
    {
        lemma_pending_count_balance(self.history());
    }

    /// A context under which no read has started.
    pub fn new() -> (cx: Self)
        ensures
            cx.history() == Seq::<ReadEvent>::empty(),
            cx.pending_count() == 0,
    {
        SuspenseContext { pending: 0, log: Ghost(Seq::empty()) }
    }

    /// Records that a read started under this boundary.
    pub fn track_read(&mut self)
        requires
            old(self).pending_count() < u64::MAX,
        ensures
            final(self).history() == old(self).history().push(ReadEvent::Started),
            final(self).pending_count() == old(self).pending_count() + 1,
    {
        proof {
            use_type_invariant(&*self);
        }
        let ghost next = self.log@.push(ReadEvent::Started);
        proof {
            assert(next.drop_last() =~= self.log@);
        }
        *self = SuspenseContext { pending: self.pending + 1, log: Ghost(next) };
    }

    /// Records that a read settled. Returns whether it answered an outstanding
    /// read; when none was outstanding the count stays at zero and the caller
    /// may report the stray notification.
    pub fn track_resolution(&mut self) -> (matched: bool)
        ensures
            matched == (old(self).pending_count() > 0),
            final(self).history() == old(self).history().push(ReadEvent::Settled),
            final(self).pending_count() == if matched {
                (old(self).pending_count() - 1) as nat
            } else {
                0
            },
    {
        proof {
            use_type_invariant(&*self);
        }
        let ghost next = self.log@.push(ReadEvent::Settled);
        proof {
            assert(next.drop_last() =~= self.log@);
        }
        let matched = self.pending > 0;
        let left: u64 = if matched {
            self.pending - 1
        } else {
            0
        };
        *self = SuspenseContext { pending: left, log: Ghost(next) };
        matched
    }

    /// Whether no read is outstanding.
    pub fn is_ready(&self) -> (ready: bool)
        ensures
            ready == (self.pending_count() == 0),
    {
        proof {
            use_type_invariant(self);
        }
        self.pending == 0
    }

    /// The number of reads still outstanding.
    pub fn pending(&self) -> (count: u64)
        ensures
            count as nat == self.pending_count(),
    {
        proof {
            use_type_invariant(self);
        }
        self.pending
    }
}

/// The boundaries that are open around the place being rendered, outermost
/// first. A read counts for the innermost of them and for no other.
pub struct ReadScope {
    open: Vec<SuspenseContext>,
}

impl View for ReadScope {
    type V = Seq<nat>;

    /// The outstanding reads of each open boundary, outermost first.
    closed spec fn view(&self) -> Seq<nat> {
        self.open@.map_values(|context: SuspenseContext| context.pending_count())
    }
}

impl ReadScope {
    /// A scope with no boundary open.
    pub fn new() -> (scope: Self)
        ensures
            scope@ == Seq::<nat>::empty(),
    {
        let scope = ReadScope { open: Vec::new() };
        assert(scope@ =~= Seq::<nat>::empty());
        scope
    }

    /// How many boundaries are open.
    pub fn depth(&self) -> (depth: usize)
        ensures
            depth == self@.len(),
    {
        self.open.len()
    }

    /// Opens a boundary inside the innermost open one, with a context of its
    /// own under which nothing has been read.
    pub fn enter(&mut self)
        ensures
            final(self)@ == old(self)@.push(0),
    {
        self.open.push(SuspenseContext::new());
        assert(self@ =~= old(self)@.push(0));
    }

    /// Records a read at the place being rendered: it counts for the
    /// innermost open boundary alone. Returns whether a boundary was open;
    /// outside every boundary the read is not counted.
    pub fn track_read(&mut self) -> (counted: bool)
        requires
            old(self)@.len() > 0 ==> old(self)@.last() < u64::MAX,
        ensures
            counted == (old(self)@.len() > 0),
            final(self)@ == if counted {
                old(self)@.update(old(self)@.len() - 1, old(self)@.last() + 1)
            } else {
                old(self)@
            },
    {
        let depth = self.open.len();
        if depth == 0 {
            return false;
        }
        self.open[depth - 1].track_read();
        assert(self@ =~= old(self)@.update(old(self)@.len() - 1, old(self)@.last() + 1));
        true
    }

    /// Closes the innermost open boundary and hands out its context, with the
    /// reads that were made strictly inside it. The enclosing boundaries are
    /// as they were.
    pub fn leave(&mut self) -> (context: Option<SuspenseContext>)
        ensures
            match context {
                Some(inner) => old(self)@.len() > 0 && inner.pending_count() == old(self)@.last()
                    && final(self)@ == old(self)@.drop_last(),
                None => old(self)@.len() == 0 && final(self)@ == old(self)@,
            },
    {
        let context = self.open.pop();
        proof {
            if context is Some {
                assert(self@ =~= old(self)@.drop_last());
            }
        }
        context
    }
}

} // verus!
