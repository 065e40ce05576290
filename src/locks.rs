use vstd::prelude::*;
use crate::comms::DaemonCommand;

verus! {

/// The two shared singletons, each behind its own lock.
#[derive(Clone, Copy, Debug, PartialEq, Eq, Structural)]
pub enum SharedState {
    Device,
    Effects,
}

/// The place of a lock in the fixed acquisition order: device, then effects.
pub open spec fn lock_rank(s: SharedState) -> int {
    match s {
        SharedState::Device => 0,
        SharedState::Effects => 1,
    }
}

/// Locks listed in strictly increasing rank.
pub open spec fn acquisition_ordered(plan: Seq<SharedState>) -> bool {
    forall|i: int, j: int| 0 <= i < j < plan.len() ==> lock_rank(#[trigger] plan[i]) < lock_rank(#[trigger] plan[j])
}

/// The locks a client request takes, in the order taken.
pub open spec fn spec_locks_needed(cmd: DaemonCommand) -> Seq<SharedState> {
    match cmd {
        DaemonCommand::GetKeyboardRGB { .. } | DaemonCommand::SetEffect { .. }
        | DaemonCommand::SetStandardEffect { .. } => seq![SharedState::Device, SharedState::Effects],
        _ => seq![SharedState::Device],
    }
}

/// The locks to take, in order, before carrying out `cmd`.
pub fn locks_needed(cmd: &DaemonCommand) -> (r: Vec<SharedState>)
    ensures
        r@ == spec_locks_needed(*cmd),
        acquisition_ordered(r@),
{
    match cmd {
        DaemonCommand::GetKeyboardRGB { .. } | DaemonCommand::SetEffect { .. }
        | DaemonCommand::SetStandardEffect { .. } => {
            let r = vec![SharedState::Device, SharedState::Effects];
            assert(r@ =~= seq![SharedState::Device, SharedState::Effects]);
            r
        },
        _ => {
            let r = vec![SharedState::Device];
            assert(r@ =~= seq![SharedState::Device]);
            r
        },
    }
}

/// A task that holds `held` may wait for `wanted` only if every lock it holds
/// comes before `wanted` in the order.
pub open spec fn waits_in_order(held: Set<SharedState>, wanted: SharedState) -> bool {
    forall|s: SharedState| held.contains(s) ==> lock_rank(s) < lock_rank(wanted)
}

/// Tasks `0..n` wait in a ring: task `i` waits for a lock that task `i + 1`
/// (task 0 after the last) holds.
pub open spec fn is_wait_cycle(held: Seq<Set<SharedState>>, wanted: Seq<SharedState>) -> bool {
    &&& held.len() == wanted.len()
    &&& held.len() > 0
    &&& forall|i: int| 0 <= i < held.len() ==> #[trigger] held[(i + 1) % (held.len() as int)].contains(wanted[i])
}

/// Tasks that all take locks in the fixed order can never wait on one another
/// in a ring, so they never deadlock.
pub proof fn lemma_ordered_locking_never_deadlocks(held: Seq<Set<SharedState>>, wanted: Seq<SharedState>)
    requires
        held.len() == wanted.len(),
        forall|i: int| 0 <= i < held.len() ==> waits_in_order(#[trigger] held[i], wanted[i]),
    ensures
        !is_wait_cycle(held, wanted),
{
    if is_wait_cycle(held, wanted) {
        let n = held.len() as int;
        // Along the ring the rank of the wanted lock strictly grows.
        assert forall|i: int| 0 <= i < n - 1 implies lock_rank(wanted[i]) < lock_rank(#[trigger] wanted[i + 1]) by {
            vstd::arithmetic::div_mod::lemma_small_mod((i + 1) as nat, n as nat);
            assert(held[(i + 1) % n].contains(wanted[i]));
            assert(waits_in_order(held[i + 1], wanted[i + 1]));
        }
        lemma_rank_climbs(wanted, n - 1);
        assert(((n - 1) + 1) % n == 0) by (nonlinear_arith)
            requires
                n > 0,
        ;
        assert(held[((n - 1) + 1) % n].contains(wanted[n - 1]));
        assert(waits_in_order(held[0], wanted[0]));
        assert(lock_rank(wanted[n - 1]) < lock_rank(wanted[0]));
    }
}

proof fn lemma_rank_climbs(wanted: Seq<SharedState>, k: int)
    requires
        0 <= k < wanted.len(),
        forall|i: int| 0 <= i < k ==> lock_rank(wanted[i]) < lock_rank(#[trigger] wanted[i + 1]),
    ensures
        lock_rank(wanted[k]) >= lock_rank(wanted[0]) + k,
    decreases k,
{
    if k > 0 {
        lemma_rank_climbs(wanted, k - 1);
        assert(lock_rank(wanted[k - 1]) < lock_rank(wanted[(k - 1) + 1]));
    }
}

} // verus!
