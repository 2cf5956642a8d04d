//! Per-height records extracted from delivered batches for external users.

use vstd::prelude::*;

verus! {

/// One transaction delivered to external users: the serialized request bytes.
#[derive(Clone, Debug, PartialEq, Eq)]
pub struct TransactionExt {
    pub data: Vec<u8>,
}

/// Mathematical value of a `TransactionExt`.
pub struct TransactionExtView {
    pub data: Seq<u8>,
}

impl View for TransactionExt {
    type V = TransactionExtView;

    open spec fn view(&self) -> TransactionExtView {
        TransactionExtView { data: self.data@ }
    }
}

/// One delivered height and its transactions, for external users.
#[derive(Clone, Debug, PartialEq, Eq)]
pub struct BlockExt {
    pub height: u64,
    pub transactions: Vec<TransactionExt>,
}

/// Mathematical value of a `BlockExt`.
pub struct BlockExtView {
    pub height: u64,
    pub transactions: Seq<TransactionExtView>,
}

impl View for BlockExt {
    type V = BlockExtView;

    open spec fn view(&self) -> BlockExtView {
        BlockExtView {
            height: self.height,
            transactions: self.transactions@.map(|i: int, t: TransactionExt| t@),
        }
    }
}

/// The contents of a sequence of `BlockExt` values.
pub open spec fn block_ext_views(blocks: Seq<BlockExt>) -> Seq<BlockExtView> {
    blocks.map(|i: int, b: BlockExt| b@)
}

} // verus!
