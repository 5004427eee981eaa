//! A small counter of work in flight.
use vstd::prelude::*;

verus! {

/// Small in-flight counter.
///
/// [`GuardGroup::guard`] increments the counter and hands out a [`Guard`]. Giving the
/// guard back with [`GuardGroup::release`] decrements it. [`GuardGroup::wait_empty`]
/// says whether the counter has reached zero.
pub struct GuardGroup {
    count: usize,
    identity: Ghost<int>,
}

/// A share in the [`GuardGroup`] that handed it out.
pub struct Guard {
    group: Ghost<int>,
}

impl Guard {
    /// The identity of the group that handed this guard out.
    pub closed spec fn origin(self) -> int {
        self.group@
    }

    /// This guard was handed out by `group`.
    pub open spec fn is_of(self, group: GuardGroup) -> bool {
        self.origin() == group.identity()
    }
}

impl GuardGroup {
    /// How many guards are out.
    pub closed spec fn held(self) -> nat {
        self.count as nat
    }

    /// Which group this is. It says what a guard belongs to and nothing else.
    pub closed spec fn identity(self) -> int {
        self.identity@
    }

    pub fn new() -> (group: Self)
        ensures
            group.held() == 0,
    {
        GuardGroup { count: 0, identity: Ghost(arbitrary()) }
    }

    /// Handing out a guard leaves `after`.
    pub open spec fn hands_out(self, after: Self) -> bool {
        &&& after.held() == self.held() + 1
        &&& after.identity() == self.identity()
    }

    /// Taking a guard back leaves `after`.
    pub open spec fn takes_back(self, after: Self) -> bool {
        &&& after.held() == self.held() - 1
        &&& after.identity() == self.identity()
    }

    /// Hands out a guard.
    pub fn guard(&mut self) -> (guard: Guard)
        requires
            old(self).held() < usize::MAX,
        ensures
            old(self).hands_out(*final(self)),
            guard.is_of(*final(self)),
    {
        self.count = self.count + 1;
        Guard { group: Ghost(self.identity@) }
    }

    pub fn count(&self) -> (count: usize)
        ensures
            count == self.held(),
    {
        self.count
    }

    /// Takes a guard of this group back. The result says whether it was the last one,
    /// so that those who wait for that have to be woken.
    pub fn release(&mut self, guard: Guard) -> (last: bool)
        requires
            guard.is_of(*old(self)),
            old(self).held() > 0,
        ensures
            old(self).takes_back(*final(self)),
            last == (final(self).held() == 0),
    {
        let Guard { group: _ } = guard;
        self.count = self.count - 1;
        self.count == 0
    }

    /// Whether waiting is over: every guard has been given back. Where it is not, the
    /// answer can change with the next release that was the last one.
    pub fn wait_empty(&self) -> (empty: bool)
        ensures
            empty == (self.held() == 0),
    {
        self.count == 0
    }
}

impl Default for GuardGroup {
    fn default() -> (group: Self)
        ensures
            group.held() == 0,
    {
        GuardGroup::new()
    }
}

/// A guard belongs to one group for good: whatever is handed out and taken back there, it
/// stays a guard of that group.
pub proof fn law_guard_stays_with_its_group(guard: Guard, before: GuardGroup, after: GuardGroup)
    requires
        before.hands_out(after) || before.takes_back(after),
    ensures
        guard.is_of(before) <==> guard.is_of(after),
{
}

/// What is done to a group of guards.
pub enum GuardMove {
    HandOut,
    TakeBack,
}

/// How many more guards have been handed out than taken back.
pub open spec fn outstanding(moves: Seq<GuardMove>) -> int
    decreases moves.len(),
{
    if moves.len() == 0 {
        0
    } else {
        outstanding(moves.drop_last()) + match moves.last() {
            GuardMove::HandOut => 1int,
            GuardMove::TakeBack => -1int,
        }
    }
}

/// The group at `k + 1` comes from the one at `k` by the move at `k`.
pub open spec fn follows(run: Seq<GuardGroup>, moves: Seq<GuardMove>, k: int) -> bool {
    match moves[k] {
        GuardMove::HandOut => run[k].hands_out(run[k + 1]),
        GuardMove::TakeBack => run[k].takes_back(run[k + 1]),
    }
}

/// The count is right at every moment: whatever has been handed out and taken back since
/// the group was new, it is the number of guards that are out.
pub proof fn law_count_is_what_is_out(run: Seq<GuardGroup>, moves: Seq<GuardMove>)
    requires
        run.len() == moves.len() + 1,
        run[0].held() == 0,
        forall|k: int| 0 <= k < moves.len() ==> #[trigger] follows(run, moves, k),
    ensures
        run.last().held() == outstanding(moves),
    decreases moves.len(),
{
    if moves.len() > 0 {
        let fewer = moves.drop_last();
        let earlier = run.drop_last();
        assert forall|k: int| 0 <= k < fewer.len() implies #[trigger] follows(earlier, fewer, k) by {
            assert(follows(run, moves, k));
        }
        law_count_is_what_is_out(earlier, fewer);
        assert(follows(run, moves, moves.len() - 1));
    }
}

} // verus!
