//! Counting edges from an interrupt, without losing any.
//!
//! Time is an argument: every rule here (debounce, burst settling) is a pure
//! function of the latch's state and the millisecond timestamp handed in, so
//! it can be checked without a board. Timestamps are `u32` milliseconds and
//! wrap after ~49 days; every comparison measures the elapsed time modulo
//! 2^32, so a wrap costs at most one mis-timed boundary.

use vstd::prelude::*;

verus! {

/// The abstract state of an [`EdgeLatch`].
pub struct LatchModel {
    /// Edges accepted but not yet handed to the main loop.
    pub count: u32,
    /// When the most recently accepted edge (or release) arrived.
    pub last_ms: u32,
    /// Whether any edge or release has ever been accepted.
    pub seen: bool,
}

/// Milliseconds from `last` to `now` on a clock that wraps at 2^32.
pub open spec fn elapsed(now: u32, last: u32) -> int {
    if now >= last {
        now - last
    } else {
        now + 0x1_0000_0000 - last
    }
}

/// Whether an edge at `now` falls inside the debounce window of `m`.
pub open spec fn in_window(m: LatchModel, now: u32, window_ms: u32) -> bool {
    m.seen && elapsed(now, m.last_ms) < window_ms
}

/// One more edge on a counter that wraps, as an atomic increment does.
pub open spec fn bump(count: u32) -> u32 {
    if count == u32::MAX {
        0
    } else {
        (count + 1) as u32
    }
}

/// The state after offering an edge at `now`.
pub open spec fn after_record(m: LatchModel, now: u32, debounce_ms: u32) -> LatchModel {
    if in_window(m, now, debounce_ms) {
        m
    } else {
        LatchModel { count: bump(m.count), last_ms: now, seen: true }
    }
}

/// The state after offering a release at `now`: it restarts the window and
/// counts nothing.
pub open spec fn after_release(m: LatchModel, now: u32, debounce_ms: u32) -> LatchModel {
    if in_window(m, now, debounce_ms) {
        m
    } else {
        LatchModel { count: m.count, last_ms: now, seen: true }
    }
}

/// The state after removing `observed` edges.
pub open spec fn after_consume(m: LatchModel, observed: u32) -> LatchModel {
    LatchModel { count: (m.count - observed) as u32, ..m }
}

/// The state after taking a settled burst at `now`: everything, if edges are
/// waiting and the last one is at least `gap_ms` old; otherwise nothing.
pub open spec fn after_take_settled(m: LatchModel, now: u32, gap_ms: u32) -> LatchModel {
    if m.count == 0 || elapsed(now, m.last_ms) < gap_ms {
        m
    } else {
        LatchModel { count: 0, ..m }
    }
}

/// A latch with edges waiting has seen an edge: the window of a waiting
/// edge is always measured from a real timestamp.
pub open spec fn consistent(m: LatchModel) -> bool {
    m.count > 0 ==> m.seen
}

/// Edges counted by an interrupt handler, waiting to be read by a main loop.
///
/// The handler calls [`EdgeLatch::record`] (and [`EdgeLatch::record_release`]);
/// the loop drains it with [`EdgeLatch::take`], [`EdgeLatch::take_one`] or
/// [`EdgeLatch::take_settled`].
#[derive(Debug)]
pub struct EdgeLatch {
    count: u32,
    last_ms: u32,
    seen: bool,
}

impl View for EdgeLatch {
    type V = LatchModel;

    closed spec fn view(&self) -> LatchModel {
        LatchModel { count: self.count, last_ms: self.last_ms, seen: self.seen }
    }
}

impl EdgeLatch {
    /// No edge waits in a latch that has never seen one.
    #[verifier::type_invariant]
    spec fn never_waits_unseen(&self) -> bool {
        consistent(self@)
    }

    /// An empty latch: nothing counted, no edge ever seen.
    pub fn new() -> (latch: Self)
        ensures
            latch@ == (LatchModel { count: 0, last_ms: 0, seen: false }),
    {
        EdgeLatch { count: 0, last_ms: 0, seen: false }
    }

    /// Whether `now` falls inside the debounce window.
    fn debounced(&self, now_ms: u32, debounce_ms: u32) -> (inside: bool)
        ensures
            inside == in_window(self@, now_ms, debounce_ms),
    {
        self.seen && now_ms.wrapping_sub(self.last_ms) < debounce_ms
    }

    /// Record one edge, rejecting it if it falls inside the debounce window.
    ///
    /// Returns whether the edge was counted. The window is measured from the
    /// last *accepted* edge, so a rejected bounce leaves the latch untouched.
    pub fn record(&mut self, now_ms: u32, debounce_ms: u32) -> (counted: bool)
        ensures
            consistent(old(self)@),
            consistent(final(self)@),
            counted == !in_window(old(self)@, now_ms, debounce_ms),
            final(self)@ == after_record(old(self)@, now_ms, debounce_ms),
    {
        proof { use_type_invariant(&*self); }
        if self.debounced(now_ms, debounce_ms) {
            return false;
        }
        self.seen = true;
        self.last_ms = now_ms;
        self.count = self.count.wrapping_add(1);
        true
    }

    /// Record the input going inactive. Counts nothing; restarts the
    /// debounce window so that bounce on release is not a second press.
    pub fn record_release(&mut self, now_ms: u32, debounce_ms: u32) -> (accepted: bool)
        ensures
            consistent(old(self)@),
            consistent(final(self)@),
            accepted == !in_window(old(self)@, now_ms, debounce_ms),
            final(self)@ == after_release(old(self)@, now_ms, debounce_ms),
    {
        proof { use_type_invariant(&*self); }
        if self.debounced(now_ms, debounce_ms) {
            return false;
        }
        self.last_ms = now_ms;
        self.seen = true;
        true
    }

    /// How many edges are waiting, without consuming them.
    pub fn pending(&self) -> (n: u32)
        ensures
            consistent(self@),
            n == self@.count,
    {
        proof { use_type_invariant(self); }
        self.count
    }

    /// When the most recently accepted edge arrived, or `None` if there has
    /// never been one.
    pub fn last_ms(&self) -> (last: Option<u32>)
        ensures
            consistent(self@),
            last == (if self@.seen { Some(self@.last_ms) } else { None::<u32> }),
    {
        proof { use_type_invariant(self); }
        if self.seen {
            Some(self.last_ms)
        } else {
            None
        }
    }

    /// Remove exactly `observed` edges, leaving any that arrived since they
    /// were observed.
    pub fn consume(&mut self, observed: u32)
        requires
            observed <= old(self)@.count,
        ensures
            consistent(old(self)@),
            consistent(final(self)@),
            final(self)@ == after_consume(old(self)@, observed),
    {
        proof { use_type_invariant(&*self); }
        self.count = self.count - observed;
    }

    /// Take every edge counted so far.
    ///
    /// Subtracts what it observed rather than storing zero, so an edge that
    /// arrives between the read and the clear survives into the next call.
    pub fn take(&mut self) -> (taken: u32)
        ensures
            consistent(old(self)@),
            consistent(final(self)@),
            taken == old(self)@.count,
            final(self)@ == (LatchModel { count: 0, ..old(self)@ }),
    {
        proof { use_type_invariant(&*self); }
        let observed = self.count;
        if observed > 0 {
            self.consume(observed);
        }
        observed
    }

    /// Take exactly one edge, if any is waiting.
    pub fn take_one(&mut self) -> (took: bool)
        ensures
            consistent(old(self)@),
            consistent(final(self)@),
            took == (old(self)@.count > 0),
            took ==> final(self)@ == (LatchModel { count: (old(self)@.count - 1) as u32, ..old(self)@ }),
            !took ==> final(self)@ == old(self)@,
    {
        proof { use_type_invariant(&*self); }
        if self.count == 0 {
            return false;
        }
        self.consume(1);
        true
    }

    /// Take a burst of edges, but only once it has been quiet for `gap_ms`.
    ///
    /// `None` while nothing is waiting or edges may still be arriving.
    pub fn take_settled(&mut self, now_ms: u32, gap_ms: u32) -> (burst: Option<u32>)
        ensures
            consistent(old(self)@),
            consistent(final(self)@),
            (old(self)@.count == 0 || elapsed(now_ms, old(self)@.last_ms) < gap_ms) ==> (
                burst == None::<u32> && final(self)@ == old(self)@),
            (old(self)@.count > 0 && elapsed(now_ms, old(self)@.last_ms) >= gap_ms) ==> (
                burst == Some(old(self)@.count)
                && final(self)@ == (LatchModel { count: 0, ..old(self)@ })),
            final(self)@ == after_take_settled(old(self)@, now_ms, gap_ms),
            burst != Some(0u32),
    {
        proof { use_type_invariant(&*self); }
        if self.count == 0 {
            return None;
        }
        if now_ms.wrapping_sub(self.last_ms) < gap_ms {
            return None;
        }
        let taken = self.take();
        if taken > 0 {
            Some(taken)
        } else {
            None
        }
    }

    /// Throw away everything uncounted, returning how much was discarded.
    /// The clock is untouched, so debounce still applies afterwards.
    pub fn discard(&mut self) -> (dropped: u32)
        ensures
            consistent(old(self)@),
            consistent(final(self)@),
            dropped == old(self)@.count,
            final(self)@ == (LatchModel { count: 0, ..old(self)@ }),
    {
        proof { use_type_invariant(&*self); }
        let dropped = self.count;
        self.count = 0;
        dropped
    }
}

impl Default for EdgeLatch {
    fn default() -> (latch: Self)
        ensures
            latch@ == (LatchModel { count: 0, last_ms: 0, seen: false }),
    {
        EdgeLatch::new()
    }
}

/// Clamp a count to what the protocol can carry in a `u8`, saturating at 255.
pub fn saturating_u8(count: u32) -> (clamped: u8)
    ensures
        clamped == (if count > 255 { 255 } else { count }),
{
    if count > 255 {
        255
    } else {
        count as u8
    }
}


/// A latch that has never accepted anything counts its very first edge,
/// whatever the clock reads -- even 0.
pub proof fn law_first_edge_is_never_debounced(m: LatchModel, now_ms: u32, debounce_ms: u32)
    requires
        !m.seen,
    ensures
        !in_window(m, now_ms, debounce_ms),
        after_record(m, now_ms, debounce_ms).count == bump(m.count),
{
}

/// Bounce does not extend the debounce window: an edge rejected inside the
/// window leaves the window measured from the edge that opened it, so an edge
/// `debounce_ms` after that one is counted however much bounce came between.
pub proof fn law_bounce_does_not_extend_the_window(
    m: LatchModel,
    first: u32,
    bounce: u32,
    later: u32,
    debounce_ms: u32,
)
    requires
        !in_window(m, first, debounce_ms),
        elapsed(bounce, first) < debounce_ms,
        elapsed(later, first) >= debounce_ms,
    ensures
        ({
            let opened = after_record(m, first, debounce_ms);
            let bounced = after_record(opened, bounce, debounce_ms);
            &&& bounced == opened
            &&& !in_window(bounced, later, debounce_ms)
            &&& after_record(bounced, later, debounce_ms).count == bump(bump(m.count))
        }),
{
}

/// A release that is accepted swallows the bounce that follows it: every edge
/// within `debounce_ms` of the release is rejected, so one press held for any
/// length of time and let go is one event.
pub proof fn law_release_swallows_its_bounce(
    m: LatchModel,
    released: u32,
    bounce: u32,
    debounce_ms: u32,
)
    requires
        !in_window(m, released, debounce_ms),
        elapsed(bounce, released) < debounce_ms,
    ensures
        ({
            let after = after_release(m, released, debounce_ms);
            &&& after.count == m.count
            &&& in_window(after, bounce, debounce_ms)
            &&& after_record(after, bounce, debounce_ms) == after
        }),
{
}

/// A release never makes the input deaf: once `debounce_ms` has passed since
/// whatever the latch last accepted, the next edge is counted.
pub proof fn law_the_window_always_reopens(m: LatchModel, now_ms: u32, debounce_ms: u32)
    requires
        m.seen ==> elapsed(now_ms, m.last_ms) >= debounce_ms,
    ensures
        after_record(m, now_ms, debounce_ms).count == bump(m.count),
        after_record(m, now_ms, debounce_ms).last_ms == now_ms,
{
}

/// An edge that arrives between observing the count and removing what was
/// observed survives: a take reads the count, an edge is recorded, and
/// removing what was read leaves exactly that edge waiting.
pub proof fn law_an_edge_during_a_take_survives(m: LatchModel, now_ms: u32, debounce_ms: u32)
    requires
        !in_window(m, now_ms, debounce_ms),
        m.count < u32::MAX,
    ensures
        after_consume(after_record(m, now_ms, debounce_ms), m.count).count == 1,
{
}

/// One call on a latch, by the loop or by the interrupt handler.
pub enum LatchCall {
    Record { now_ms: u32, debounce_ms: u32 },
    Release { now_ms: u32, debounce_ms: u32 },
    Take,
    TakeOne,
    TakeSettled { now_ms: u32, gap_ms: u32 },
    Discard,
    /// `pending` or `last_ms`: a read, which changes nothing.
    Read,
}

/// The state after one call, as each method's contract gives it.
pub open spec fn after_call(m: LatchModel, call: LatchCall) -> LatchModel {
    match call {
        LatchCall::Record { now_ms, debounce_ms } => after_record(m, now_ms, debounce_ms),
        LatchCall::Release { now_ms, debounce_ms } => after_release(m, now_ms, debounce_ms),
        LatchCall::Take | LatchCall::Discard => LatchModel { count: 0, ..m },
        LatchCall::TakeOne => if m.count > 0 { after_consume(m, 1) } else { m },
        LatchCall::TakeSettled { now_ms, gap_ms } => after_take_settled(m, now_ms, gap_ms),
        LatchCall::Read => m,
    }
}

/// How many edges a call counts: one for an accepted edge, else none.
pub open spec fn gained(m: LatchModel, call: LatchCall) -> int {
    match call {
        LatchCall::Record { now_ms, debounce_ms } => if in_window(m, now_ms, debounce_ms) { 0 } else { 1 },
        _ => 0,
    }
}

/// How many edges a call hands out or throws away: what `take`, `discard`
/// and a settled `take_settled` return, one for a successful `take_one`.
pub open spec fn removed(m: LatchModel, call: LatchCall) -> int {
    match call {
        LatchCall::Take | LatchCall::Discard => m.count as int,
        LatchCall::TakeOne => if m.count > 0 { 1 } else { 0 },
        LatchCall::TakeSettled { now_ms, gap_ms } => m.count - after_take_settled(m, now_ms, gap_ms).count,
        _ => 0,
    }
}

/// The state after a sequence of calls.
pub open spec fn replay(m: LatchModel, calls: Seq<LatchCall>) -> LatchModel
    decreases calls.len(),
{
    if calls.len() == 0 { m } else { after_call(replay(m, calls.drop_last()), calls.last()) }
}

/// Edges counted over a sequence of calls.
pub open spec fn total_gained(m: LatchModel, calls: Seq<LatchCall>) -> int
    decreases calls.len(),
{
    if calls.len() == 0 {
        0
    } else {
        total_gained(m, calls.drop_last()) + gained(replay(m, calls.drop_last()), calls.last())
    }
}

/// Edges handed out or thrown away over a sequence of calls.
pub open spec fn total_removed(m: LatchModel, calls: Seq<LatchCall>) -> int
    decreases calls.len(),
{
    if calls.len() == 0 {
        0
    } else {
        total_removed(m, calls.drop_last()) + removed(replay(m, calls.drop_last()), calls.last())
    }
}

/// Every edge is counted exactly once: whatever sequence of calls a single
/// consumer and the interrupt handler make, the waiting count is the edges
/// accepted less the edges handed out or thrown away, modulo 2^32 as the
/// counter wraps; releases and reads never change it.
pub proof fn law_every_edge_is_counted_once(m: LatchModel, calls: Seq<LatchCall>)
    ensures
        replay(m, calls).count == (m.count + total_gained(m, calls) - total_removed(m, calls)) % 0x1_0000_0000int,
        forall|c: LatchCall| (c is Release || c is Read) ==> #[trigger] after_call(m, c).count == m.count,
    decreases calls.len(),
{
    let modulus: int = 0x1_0000_0000;
    if calls.len() == 0 {
        vstd::arithmetic::div_mod::lemma_small_mod(m.count as nat, modulus as nat);
    } else {
        let before = calls.drop_last();
        law_every_edge_is_counted_once(m, before);
        let x: int = m.count + total_gained(m, before) - total_removed(m, before);
        let r = replay(m, before);
        let c = calls.last();
        let g = gained(r, c);
        let d = removed(r, c);
        let next = after_call(r, c).count;
        assert(r.count == x % modulus);
        // One call moves the count by what it gains less what it removes.
        assert(next == (r.count + g - d) % modulus) by {
            if r.count + g - d == modulus {
                vstd::arithmetic::div_mod::lemma_mod_self_0(modulus);
            } else {
                assert(0 <= r.count + g - d < modulus);
                vstd::arithmetic::div_mod::lemma_small_mod((r.count + g - d) as nat, modulus as nat);
            }
        }
        assert((r.count + g - d) % modulus == (x + g - d) % modulus) by {
            vstd::arithmetic::div_mod::lemma_add_mod_noop(x, g - d, modulus);
            vstd::arithmetic::div_mod::lemma_add_mod_noop(r.count as int, g - d, modulus);
            vstd::arithmetic::div_mod::lemma_mod_twice(x, modulus);
        }
    }
}

} // verus!
