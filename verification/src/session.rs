//! Driving a chain forward: which hooks the host has to run, and in which
//! order, to reach a block or a session.

use vstd::prelude::*;
use crate::mock::BlockNumber;
use crate::mock::SessionIndex;
use crate::mock::EraIndex;
use crate::genesis::INIT_TIMESTAMP;

verus! {

/// One thing that the host does to the chain.
#[derive(Clone, Copy, Debug, PartialEq, Eq, Structural)]
pub enum Hook {
    /// Staking closes the block.
    StakingFinalize(BlockNumber),
    /// The chain moves to the block.
    SetBlockNumber(BlockNumber),
    /// The clock is set.
    SetTimestamp(u64),
    /// The session module opens the block.
    SessionInitialize(BlockNumber),
    /// Staking opens the block.
    StakingInitialize(BlockNumber),
}

/// The hooks of one block on the way to block `n`: the block is opened,
/// and closed again unless it is `n` itself.
pub open spec fn block_hooks(b: BlockNumber, n: BlockNumber) -> Seq<Hook> {
    if b == n {
        seq![Hook::SetBlockNumber(b), Hook::SessionInitialize(b), Hook::StakingInitialize(b)]
    } else {
        seq![
            Hook::SetBlockNumber(b),
            Hook::SessionInitialize(b),
            Hook::StakingInitialize(b),
            Hook::StakingFinalize(b),
        ]
    }
}

/// The hooks of the blocks after `from` up to `upto`, on the way to `n`.
pub open spec fn blocks_between(from: BlockNumber, upto: BlockNumber, n: BlockNumber) -> Seq<Hook>
    decreases upto,
{
    if upto <= from {
        Seq::empty()
    } else {
        blocks_between(from, (upto - 1) as BlockNumber, n) + block_hooks(upto, n)
    }
}

/// The hooks that take the chain from block `current` to block `n`: the
/// current block is closed, then every block up to `n` is opened and, but
/// for `n`, closed.
pub open spec fn block_plan(current: BlockNumber, n: BlockNumber) -> Seq<Hook> {
    seq![Hook::StakingFinalize(current)] + blocks_between(current, n, n)
}

/// The hooks that take the chain from block `current` to block `n`.
pub fn run_to_block(current: BlockNumber, n: BlockNumber) -> (plan: Vec<Hook>)
    ensures
        plan@ == block_plan(current, n),
{
    let mut plan: Vec<Hook> = Vec::new();
    plan.push(Hook::StakingFinalize(current));
    let mut b: BlockNumber = current;
    proof {
        assert(plan@ =~= seq![Hook::StakingFinalize(current)] + blocks_between(current, b, n));
    }
    while b < n
        invariant
            current <= b,
            b <= n || (n < current && b == current),
            plan@ == seq![Hook::StakingFinalize(current)] + blocks_between(current, b, n),
        decreases n - b,
    {
        let ghost before = plan@;
        b += 1;
        plan.push(Hook::SetBlockNumber(b));
        plan.push(Hook::SessionInitialize(b));
        plan.push(Hook::StakingInitialize(b));
        if b != n {
            plan.push(Hook::StakingFinalize(b));
        }
        proof {
            assert(plan@ =~= before + block_hooks(b, n));
            assert(before + block_hooks(b, n) =~= seq![Hook::StakingFinalize(current)] + (
            blocks_between(current, (b - 1) as BlockNumber, n) + block_hooks(b, n)));
        }
    }
    proof {
        if n < current {
            assert(b == current);
            assert(blocks_between(current, b, n) =~= Seq::<Hook>::empty());
            assert(blocks_between(current, n, n) =~= Seq::<Hook>::empty());
        }
    }
    plan
}

/// The block that the chain stands at when session `i` is about to be
/// left, on a way that began at session `first` and block `block`.
pub open spec fn block_before(first: SessionIndex, block: BlockNumber, i: SessionIndex) -> BlockNumber {
    if i == first {
        block
    } else {
        i as BlockNumber
    }
}

/// The hooks that leave session `i`: the block is closed, the chain moves
/// to block `i + 1`, the clock is set to a second for each block after the
/// initial timestamp, and the block is opened.
pub open spec fn session_hooks(first: SessionIndex, block: BlockNumber, i: SessionIndex) -> Seq<Hook> {
    let next = (i + 1) as BlockNumber;
    seq![
        Hook::StakingFinalize(block_before(first, block, i)),
        Hook::SetBlockNumber(next),
        Hook::SetTimestamp((next * 1000 + INIT_TIMESTAMP) as u64),
        Hook::SessionInitialize(next),
        Hook::StakingInitialize(next),
    ]
}

/// The hooks that leave the sessions from `first` up to, not including,
/// `upto`.
pub open spec fn sessions_between(first: SessionIndex, block: BlockNumber, upto: SessionIndex) -> Seq<
    Hook,
>
    decreases upto,
{
    if upto <= first {
        Seq::empty()
    } else {
        sessions_between(first, block, (upto - 1) as SessionIndex) + session_hooks(
            first,
            block,
            (upto - 1) as SessionIndex,
        )
    }
}

/// The hooks that take a chain with sessions of one block from session
/// `current_index`, at block `block`, to session `session_index`. Nothing is
/// to be done where the chain is there already or beyond.
pub fn start_session(current_index: SessionIndex, block: BlockNumber, session_index: SessionIndex) -> (plan:
    Vec<Hook>)
    ensures
        plan@ == sessions_between(current_index, block, session_index),
{
    let mut plan: Vec<Hook> = Vec::new();
    let mut i: SessionIndex = current_index;
    let mut at: BlockNumber = block;
    proof {
        assert(plan@ =~= sessions_between(current_index, block, i));
    }
    while i < session_index
        invariant
            current_index <= i,
            i <= session_index || (session_index < current_index && i == current_index),
            at == block_before(current_index, block, i),
            plan@ == sessions_between(current_index, block, i),
        decreases session_index - i,
    {
        let ghost before = plan@;
        let next: BlockNumber = (i as u64) + 1;
        plan.push(Hook::StakingFinalize(at));
        plan.push(Hook::SetBlockNumber(next));
        plan.push(Hook::SetTimestamp(next * 1000 + INIT_TIMESTAMP));
        plan.push(Hook::SessionInitialize(next));
        plan.push(Hook::StakingInitialize(next));
        proof {
            assert(plan@ =~= before + session_hooks(current_index, block, i));
        }
        at = next;
        i += 1;
    }
    proof {
        if session_index < current_index {
            assert(i == current_index);
            assert(sessions_between(current_index, block, i) =~= Seq::<Hook>::empty());
            assert(sessions_between(current_index, block, session_index) =~= Seq::<Hook>::empty());
        }
    }
    plan
}

/// The hooks that take a chain with sessions of one block to its next
/// session.
pub fn advance_session(current_index: SessionIndex, block: BlockNumber) -> (plan: Vec<Hook>)
    requires
        current_index < SessionIndex::MAX,
    ensures
        plan@ == session_hooks(current_index, block, current_index),
{
    let plan = start_session(current_index, block, current_index + 1);
    proof {
        assert(sessions_between(current_index, block, current_index) =~= Seq::<Hook>::empty());
        assert(plan@ =~= session_hooks(current_index, block, current_index));
    }
    plan
}

/// The hooks that take a chain with sessions of one block to the first
/// session of an era.
pub fn start_era(
    current_index: SessionIndex,
    block: BlockNumber,
    sessions_per_era: SessionIndex,
    era_index: EraIndex,
) -> (plan: Vec<Hook>)
    requires
        era_index * sessions_per_era <= SessionIndex::MAX,
    ensures
        plan@ == sessions_between(
            current_index,
            block,
            (era_index * sessions_per_era) as SessionIndex,
        ),
{
    start_session(current_index, block, era_index * sessions_per_era)
}

} // verus!
