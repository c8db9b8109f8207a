//! Which blocks the listener fetches next.
use vstd::prelude::*;
use crate::indexer_db::entity::evm_chains::EvmChains;

verus! {

/// The most blocks past the last synced one that one round fetches.
pub const BLOCKS_PER_ROUND: u64 = 25;

/// What one round of the listener does.
pub enum FetchPlan {
    /// The chain is synced up to the latest block: nothing to fetch.
    FullyIndexed,
    /// Fetch the logs of blocks `from_block..=to_block`, then record
    /// `to_block` as the last synced block.
    Fetch { from_block: u64, to_block: u64 },
}

/// The round for a chain whose last synced block is stored as
/// `last_synced` (read as unsigned) when the node's latest block is
/// `latest`. A chain never synced (block 0) is fetched from block 0 up to
/// the latest block at once; otherwise the round starts after the last
/// synced block and covers at most `BLOCKS_PER_ROUND` blocks, stopping at
/// the latest block.
pub open spec fn fetch_plan(last_synced: i64, latest: u64) -> FetchPlan {
    let last = last_synced as u64;
    if latest == last {
        FetchPlan::FullyIndexed
    } else if last == 0 {
        FetchPlan::Fetch { from_block: 0, to_block: latest }
    } else {
        let end = last + BLOCKS_PER_ROUND;
        FetchPlan::Fetch {
            from_block: (last + 1) as u64,
            to_block: if end <= latest { end as u64 } else { latest },
        }
    }
}

/// The round's block arithmetic stays within `u64`.
pub open spec fn fetch_plan_fits(last_synced: i64, latest: u64) -> bool {
    let last = last_synced as u64;
    latest != last && last != 0 ==> last + BLOCKS_PER_ROUND <= u64::MAX
}

/// The next round for `chain`, given the node's latest block.
pub fn plan_fetch(chain: &EvmChains, latest_block: u64) -> (r: FetchPlan)
    requires
        fetch_plan_fits(chain.last_synced_block_number, latest_block),
    ensures
        r == fetch_plan(chain.last_synced_block_number, latest_block),
{
    let last = chain.last_synced_block_number as u64;
    if latest_block == last {
        return FetchPlan::FullyIndexed;
    }
    let from_block = if last == 0 {
        0
    } else {
        last + 1
    };
    let to_block = if last == 0 {
        latest_block
    } else {
        let end = last + BLOCKS_PER_ROUND;
        if end <= latest_block {
            end
        } else {
            latest_block
        }
    };
    FetchPlan::Fetch { from_block, to_block }
}

/// Law: a round that starts after a synced block covers at most
/// `BLOCKS_PER_ROUND` blocks.
pub proof fn law_round_is_bounded(last_synced: i64, latest: u64)
    requires
        last_synced as u64 != 0,
        fetch_plan_fits(last_synced, latest),
    ensures
        ({
            let p = fetch_plan(last_synced, latest);
            p is Fetch ==> p->to_block + 1 - p->from_block <= BLOCKS_PER_ROUND
        }),
{
}

/// Law: for a chain synced to block `s != 0` behind the node's latest
/// block `l`, the round starts at `s + 1` and ends at the smaller of
/// `s + 25` and `l`: it takes a full batch of `BLOCKS_PER_ROUND` blocks
/// whenever the node is that far ahead, and otherwise catches up to `l`.
pub proof fn law_round_takes_full_batch(last_synced: i64, latest: u64)
    requires
        last_synced as u64 != 0,
        (last_synced as u64) < latest,
        fetch_plan_fits(last_synced, latest),
    ensures
        ({
            let s = last_synced as u64;
            let p = fetch_plan(last_synced, latest);
            &&& p is Fetch
            &&& p->from_block == s + 1
            &&& s + 25 <= latest ==> p->to_block == s + 25
            &&& latest < s + 25 ==> p->to_block == latest
            &&& latest - s >= 25 ==> p->to_block - p->from_block + 1 == 25
        }),
{
}

/// Law: while the chain is behind the node, each round fetches a
/// non-empty range that ends past the last synced block and not past the
/// latest block; when it is level, there is nothing to fetch.
pub proof fn law_round_makes_progress(last_synced: i64, latest: u64)
    requires
        last_synced as u64 <= latest,
        fetch_plan_fits(last_synced, latest),
    ensures
        (fetch_plan(last_synced, latest) is FullyIndexed) <==> (last_synced as u64) == latest,
        ({
            let p = fetch_plan(last_synced, latest);
            p is Fetch ==> p->from_block <= p->to_block <= latest && (last_synced as u64)
                < p->to_block
        }),
{
}

/// Law: consecutive rounds fetch adjacent ranges: once a round's last
/// block is recorded as synced, the next round starts right after it, or
/// finds the chain fully indexed if it reached the latest block.
pub proof fn law_rounds_are_contiguous(last_synced: i64, latest: u64)
    requires
        last_synced as u64 <= latest,
        latest <= u64::MAX - BLOCKS_PER_ROUND,
    ensures
        ({
            let p = fetch_plan(last_synced, latest);
            let next = fetch_plan(p->to_block as i64, latest);
            p is Fetch ==> {
                &&& fetch_plan_fits(p->to_block as i64, latest)
                &&& (next is FullyIndexed <==> p->to_block == latest)
                &&& next is Fetch ==> next->from_block == p->to_block + 1
            }
        }),
{
    if let FetchPlan::Fetch { from_block, to_block } = fetch_plan(last_synced, latest) {
        assert(((to_block as i64) as u64) == to_block) by (bit_vector);
    }
}

/// The blocks that successive rounds fetch for a chain synced up to
/// `last`, recording each round's last block, until it is level with
/// `latest`.
pub open spec fn blocks_fetched(last: u64, latest: u64) -> Set<int>
    decreases latest - last,
{
    if last < latest {
        match fetch_plan(last as i64, latest) {
            FetchPlan::Fetch { from_block, to_block } => {
                if last < to_block <= latest {
                    Set::new(|b: int| from_block <= b <= to_block).union(
                        blocks_fetched(to_block, latest),
                    )
                } else {
                    Set::empty()
                }
            },
            FetchPlan::FullyIndexed => Set::empty(),
        }
    } else {
        Set::empty()
    }
}

/// The first block a chain synced up to `last` still lacks: block 0 for a
/// chain never synced, else the block after `last`.
pub open spec fn first_missing_block(last: u64) -> int {
    if last == 0 {
        0
    } else {
        last + 1
    }
}

/// Law: starting from any synced block behind the node, the rounds fetch
/// exactly the blocks from the first missing one through the latest one.
pub proof fn law_rounds_fetch_all_missing_blocks(last: u64, latest: u64)
    requires
        last < latest,
        latest <= u64::MAX - BLOCKS_PER_ROUND,
    ensures
        blocks_fetched(last, latest) == Set::new(
            |b: int| first_missing_block(last) <= b <= latest,
        ),
    decreases latest - last,
{
    assert(((last as i64) as u64) == last) by (bit_vector);
    let p = fetch_plan(last as i64, latest);
    let to = p->to_block;
    assert(p is Fetch);
    assert(last < to <= latest);
    if to < latest {
        law_rounds_fetch_all_missing_blocks(to, latest);
        assert(to != 0);
    } else {
        assert(blocks_fetched(to, latest) == Set::<int>::empty());
    }
    assert(blocks_fetched(last, latest) =~= Set::new(
        |b: int| first_missing_block(last) <= b <= latest,
    ));
}

} // verus!
