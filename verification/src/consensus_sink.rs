//! The auxiliary sink that receives the per-height records extracted during a
//! delivery round: append-like, one emission per round, records without
//! transactions dropped.

use crate::modular_chain::{block_ext_views, BlockExt, BlockExtView};
use vstd::prelude::*;

verus! {

/// The records among `blocks` that hold at least one transaction, in order.
pub open spec fn nonempty_block_views(blocks: Seq<BlockExtView>) -> Seq<BlockExtView>
    decreases blocks.len(),
{
    if blocks.len() == 0 {
        Seq::empty()
    } else {
        nonempty_block_views(blocks.drop_last()) + (if blocks.last().transactions.len() > 0 {
            seq![blocks.last()]
        } else {
            Seq::empty()
        })
    }
}

/// Receives the per-height records extracted during a delivery round. An
/// emission appends the records that hold transactions and never drops
/// previously accepted ones.
pub trait ConsensusSink: Sized {
    /// The records accepted so far, in order.
    spec fn received(&self) -> Seq<BlockExtView>;

    /// Delivers one round's records to the sink.
    fn emit(&mut self, blocks: Vec<BlockExt>)
        ensures
            final (self).received() == old(self).received() + nonempty_block_views(
                block_ext_views(blocks@),
            ),
    ;
}

/// An in-memory sink keeping the accepted records in one growing list.
pub struct VecSink {
    pub blocks: Vec<BlockExt>,
}

impl VecSink {
    /// An empty sink.
    pub fn new() -> (r: VecSink)
        ensures
            r.received() == Seq::<BlockExtView>::empty(),
    {
        let r = VecSink { blocks: Vec::new() };
        proof {
            assert(r.received() =~= Seq::<BlockExtView>::empty());
        }
        r
    }
}

impl ConsensusSink for VecSink {
    open spec fn received(&self) -> Seq<BlockExtView> {
        block_ext_views(self.blocks@)
    }

    fn emit(&mut self, blocks: Vec<BlockExt>) {
        let mut i: usize = 0;
        proof {
            assert(blocks@.take(0) =~= Seq::<BlockExt>::empty());
            assert(block_ext_views(blocks@.take(0)) =~= Seq::<BlockExtView>::empty());
            assert(nonempty_block_views(block_ext_views(blocks@.take(0))) =~= Seq::<
                BlockExtView,
            >::empty());
            assert(old(self).received() + Seq::<BlockExtView>::empty() =~= old(self).received());
        }
        while i < blocks.len()
            invariant
                i <= blocks.len(),
                block_ext_views(self.blocks@) == old(self).received() + nonempty_block_views(
                    block_ext_views(blocks@.take(i as int)),
                ),
            decreases blocks.len() - i,
        {
            proof {
                assert(block_ext_views(blocks@.take(i as int + 1)).drop_last()
                    =~= block_ext_views(blocks@.take(i as int)));
                assert(block_ext_views(blocks@.take(i as int + 1)).last() == blocks@[i as int]@);
            }
            let b = &blocks[i];
            if b.transactions.len() > 0 {
                let copied = BlockExt {
                    height: b.height,
                    transactions: copy_transactions(&b.transactions),
                };
                let ghost prev = self.blocks@;
                self.blocks.push(copied);
                proof {
                    assert(copied@ == blocks@[i as int]@);
                    assert(block_ext_views(self.blocks@) =~= block_ext_views(prev).push(copied@));
                    assert(block_ext_views(prev).push(copied@) =~= block_ext_views(prev) + seq![
                        blocks@[i as int]@,
                    ]);
                }
            } else {
                proof {
                    assert(blocks@[i as int]@.transactions.len() == 0);
                    assert(block_ext_views(self.blocks@) + Seq::<BlockExtView>::empty()
                        =~= block_ext_views(self.blocks@));
                }
            }
            i = i + 1;
        }
        proof {
            assert(blocks@.take(blocks@.len() as int) =~= blocks@);
        }
    }
}

/// Copies a transaction list.
fn copy_transactions(
    ts: &Vec<crate::modular_chain::TransactionExt>,
) -> (r: Vec<crate::modular_chain::TransactionExt>)
    ensures
        r@.map(|i: int, t: crate::modular_chain::TransactionExt| t@) == ts@.map(
            |i: int, t: crate::modular_chain::TransactionExt| t@,
        ),
        r@.len() == ts@.len(),
{
    let mut r: Vec<crate::modular_chain::TransactionExt> = Vec::new();
    let mut i: usize = 0;
    while i < ts.len()
        invariant
            i <= ts.len(),
            r@.len() == i,
            r@.map(|l: int, t: crate::modular_chain::TransactionExt| t@) =~= ts@.take(i as int).map(
                |l: int, t: crate::modular_chain::TransactionExt| t@,
            ),
        decreases ts.len() - i,
    {
        let copied = crate::modular_chain::TransactionExt {
            data: crate::types::copy_bytes(&ts[i].data),
        };
        let ghost prev = r@;
        r.push(copied);
        proof {
            assert(copied@ == ts@[i as int]@);
            assert(r@.map(|l: int, t: crate::modular_chain::TransactionExt| t@) =~= prev.map(
                |l: int, t: crate::modular_chain::TransactionExt| t@,
            ).push(copied@));
            assert(ts@.take(i as int + 1).map(|l: int, t: crate::modular_chain::TransactionExt| t@)
                =~= ts@.take(i as int).map(|l: int, t: crate::modular_chain::TransactionExt| t@
            ).push(ts@[i as int]@));
        }
        i = i + 1;
    }
    proof {
        assert(ts@.take(ts@.len() as int) =~= ts@);
    }
    r
}

} // verus!
