//! Receipts of an execution, and the records that are shown of them.

use crate::digits::{prefixed_chars, write_prefixed};
use vstd::prelude::*;

verus! {

/// The sorts of receipt that the engine emits.
#[derive(Clone, Copy, Debug, PartialEq, Eq, Structural)]
pub enum ReceiptKind {
    Call,
    Return,
    ReturnData,
    Panic,
    Revert,
    Log,
    LogData,
    Transfer,
    TransferOut,
    ScriptResult,
    MessageOut,
}

/// One effect of an execution, as the engine serialized it. Receipts come
/// from the engine only and are never changed here.
#[derive(Clone, Debug, PartialEq, Eq)]
pub struct ExecutionReceipt {
    pub kind: ReceiptKind,
    pub payload: Vec<u8>,
}

/// A receipt as it is shown: its sort, and its bytes as text.
#[derive(Clone, Debug, PartialEq, Eq)]
pub struct ReceiptRecord {
    pub kind: ReceiptKind,
    pub data: String,
}

/// `record` shows `receipt`: the same sort, and the payload as `0x` and
/// lower-case hexadecimal digits.
pub open spec fn shows(record: ReceiptRecord, receipt: ExecutionReceipt) -> bool {
    &&& record.kind == receipt.kind
    &&& record.data@ == prefixed_chars(receipt.payload@)
}

/// `records` show `receipts`, one for one and in their order.
pub open spec fn show_all(records: Seq<ReceiptRecord>, receipts: Seq<ExecutionReceipt>) -> bool {
    &&& records.len() == receipts.len()
    &&& forall|i: int| 0 <= i < receipts.len() ==> shows(#[trigger] records[i], receipts[i])
}

/// The record of one receipt.
pub fn record_of(receipt: &ExecutionReceipt) -> (record: ReceiptRecord)
    ensures
        shows(record, *receipt),
{
    ReceiptRecord { kind: receipt.kind, data: write_prefixed(receipt.payload.as_slice()) }
}

/// The records of a run of receipts, in the order of the receipts.
pub fn records_of(receipts: &Vec<ExecutionReceipt>) -> (records: Vec<ReceiptRecord>)
    ensures
        show_all(records@, receipts@),
{
    let mut records: Vec<ReceiptRecord> = Vec::new();
    let mut i: usize = 0;
    while i < receipts.len()
        invariant
            i <= receipts@.len(),
            show_all(records@, receipts@.take(i as int)),
        decreases receipts@.len() - i,
    {
        let record = record_of(&receipts[i]);
        records.push(record);
        i = i + 1;
    }
    assert(receipts@.take(i as int) =~= receipts@);
    records
}

} // verus!
