//! The framing of a serialized transaction: where each of its parts ends.
//!
//! A serialized transaction is a run of 8-byte big-endian words. The first
//! word tells its kind; a fixed head follows, in which the lengths of its
//! byte fields and the counts of its inputs, outputs and witnesses stand;
//! then come the fields and the parts themselves, each padded to whole
//! words. The functions here follow those lengths and counts through the
//! bytes and tell whether every part they announce lies inside them.

use vstd::prelude::*;

verus! {

/// Bytes in a word.
pub const WORD_SIZE: usize = 8;

/// Size of the fixed head of a script transaction.
pub const SCRIPT_HEAD: usize = 104;

/// Size of the fixed head of a create transaction.
pub const CREATE_HEAD: usize = 112;

/// Size of the fixed head of a mint transaction.
pub const MINT_HEAD: usize = 32;

/// Size of a storage slot.
pub const SLOT_SIZE: usize = 64;

/// Size of the fixed head of a coin input.
pub const COIN_INPUT_HEAD: usize = 168;

/// Size of a contract input.
pub const CONTRACT_INPUT_SIZE: usize = 160;

/// Size of the fixed head of a message input.
pub const MESSAGE_INPUT_HEAD: usize = 152;

/// Size of a coin, change or variable output.
pub const COIN_OUTPUT_SIZE: usize = 80;

/// Size of a contract output.
pub const CONTRACT_OUTPUT_SIZE: usize = 80;

/// Size of a message output.
pub const MESSAGE_OUTPUT_SIZE: usize = 48;

/// Size of a contract-created output.
pub const CREATED_OUTPUT_SIZE: usize = 72;

/// The three kinds of transaction, by the first word of their bytes.
#[derive(Clone, Copy, Debug, PartialEq, Eq, Structural)]
pub enum TransactionKind {
    Script,
    Create,
    Mint,
}

/// The parts that a transaction holds in counted runs.
#[derive(Clone, Copy, Debug, PartialEq, Eq, Structural)]
pub enum Part {
    StorageSlot,
    Input,
    Output,
    Witness,
}

/// The big-endian word that starts at byte `at`.
pub open spec fn word_at(bytes: Seq<u8>, at: int) -> int
    recommends
        0 <= at,
        at + 8 <= bytes.len(),
{
    bytes[at] * 0x0100_0000_0000_0000 + bytes[at + 1] * 0x0001_0000_0000_0000 + bytes[at + 2]
        * 0x0000_0100_0000_0000 + bytes[at + 3] * 0x0000_0001_0000_0000 + bytes[at + 4]
        * 0x0000_0000_0100_0000 + bytes[at + 5] * 0x0000_0000_0001_0000 + bytes[at + 6]
        * 0x0000_0000_0000_0100 + bytes[at + 7]
}

/// `len` rounded up to whole words.
pub open spec fn padded(len: int) -> int {
    if len % 8 == 0 {
        len
    } else {
        len + 8 - len % 8
    }
}

/// Where a byte field of `len` bytes that starts at `at` ends, padding
/// included; `None` where the bytes are too short for it.
pub open spec fn after_bytes(bytes: Seq<u8>, at: int, len: int) -> Option<int> {
    if padded(len) <= bytes.len() - at {
        Some(at + padded(len))
    } else {
        None
    }
}

/// `after_bytes` from a place that may already be lost.
pub open spec fn next_bytes(bytes: Seq<u8>, at: Option<int>, len: int) -> Option<int> {
    match at {
        Some(p) => after_bytes(bytes, p, len),
        None => None,
    }
}

/// Where the input that starts at `at` ends.
///
/// Tag 0 is a coin, with a predicate and its data behind the head; tag 1 a
/// contract, of fixed size; tag 2 a message, with data, a predicate and the
/// predicate's data behind the head.
pub open spec fn after_input(bytes: Seq<u8>, at: int) -> Option<int> {
    let room = bytes.len() - at;
    if room < 8 {
        None
    } else if word_at(bytes, at) == 0 {
        if room < 168 {
            None
        } else {
            next_bytes(
                bytes,
                after_bytes(bytes, at + 168, word_at(bytes, at + 152)),
                word_at(bytes, at + 160),
            )
        }
    } else if word_at(bytes, at) == 1 {
        if room < 160 {
            None
        } else {
            Some(at + 160)
        }
    } else if word_at(bytes, at) == 2 {
        if room < 152 {
            None
        } else {
            next_bytes(
                bytes,
                next_bytes(
                    bytes,
                    after_bytes(bytes, at + 152, word_at(bytes, at + 128)),
                    word_at(bytes, at + 136),
                ),
                word_at(bytes, at + 144),
            )
        }
    } else {
        None
    }
}

/// The size of an output with the given tag; `None` for an unknown tag.
pub open spec fn output_size(tag: int) -> Option<int> {
    if tag == 0 || tag == 3 || tag == 4 {
        Some(80)
    } else if tag == 1 {
        Some(80)
    } else if tag == 2 {
        Some(48)
    } else if tag == 5 {
        Some(72)
    } else {
        None
    }
}

/// Where the output that starts at `at` ends.
pub open spec fn after_output(bytes: Seq<u8>, at: int) -> Option<int> {
    let room = bytes.len() - at;
    if room < 8 {
        None
    } else {
        match output_size(word_at(bytes, at)) {
            Some(size) => if room < size {
                None
            } else {
                Some(at + size)
            },
            None => None,
        }
    }
}

/// Where the witness that starts at `at` ends: a word with its length, then
/// that many bytes, padded.
pub open spec fn after_witness(bytes: Seq<u8>, at: int) -> Option<int> {
    if bytes.len() - at < 8 {
        None
    } else {
        after_bytes(bytes, at + 8, word_at(bytes, at))
    }
}

/// Where the storage slot that starts at `at` ends.
pub open spec fn after_slot(bytes: Seq<u8>, at: int) -> Option<int> {
    if bytes.len() - at < 64 {
        None
    } else {
        Some(at + 64)
    }
}

/// Where the part of the given sort that starts at `at` ends.
pub open spec fn after_part(bytes: Seq<u8>, at: int, part: Part) -> Option<int> {
    match part {
        Part::StorageSlot => after_slot(bytes, at),
        Part::Input => after_input(bytes, at),
        Part::Output => after_output(bytes, at),
        Part::Witness => after_witness(bytes, at),
    }
}

/// Where a run of `count` parts that starts at `at` ends.
pub open spec fn after_parts(bytes: Seq<u8>, at: int, part: Part, count: nat) -> Option<int>
    decreases count,
{
    if count == 0 {
        Some(at)
    } else {
        match after_part(bytes, at, part) {
            Some(next) => after_parts(bytes, next, part, (count - 1) as nat),
            None => None,
        }
    }
}

/// `after_parts` from a place that may already be lost.
pub open spec fn next_parts(bytes: Seq<u8>, at: Option<int>, part: Part, count: int) -> Option<
    int,
> {
    match at {
        Some(p) => after_parts(bytes, p, part, count as nat),
        None => None,
    }
}

/// The kind that the first word of `bytes` announces.
#[verifier::opaque]
pub open spec fn kind_of(bytes: Seq<u8>) -> Option<TransactionKind> {
    if bytes.len() < 8 {
        None
    } else if word_at(bytes, 0) == 0 {
        Some(TransactionKind::Script)
    } else if word_at(bytes, 0) == 1 {
        Some(TransactionKind::Create)
    } else if word_at(bytes, 0) == 2 {
        Some(TransactionKind::Mint)
    } else {
        None
    }
}

/// Where a script transaction ends: the script and its data, whose lengths
/// are the words at 32 and 40, then the inputs, outputs and witnesses,
/// counted by the words at 48, 56 and 64.
pub open spec fn script_end(bytes: Seq<u8>) -> Option<int> {
    if bytes.len() < 104 {
        None
    } else {
        let script = after_bytes(bytes, 104, word_at(bytes, 32));
        let data = next_bytes(bytes, script, word_at(bytes, 40));
        let inputs = next_parts(bytes, data, Part::Input, word_at(bytes, 48));
        let outputs = next_parts(bytes, inputs, Part::Output, word_at(bytes, 56));
        next_parts(bytes, outputs, Part::Witness, word_at(bytes, 64))
    }
}

/// Where a create transaction ends: the storage slots, counted by the low
/// 16 bits of the word at 48, then the inputs, outputs and witnesses,
/// counted by the words at 56, 64 and 72.
pub open spec fn create_end(bytes: Seq<u8>) -> Option<int> {
    if bytes.len() < 112 {
        None
    } else {
        let slots = after_parts(bytes, 112, Part::StorageSlot, (word_at(bytes, 48) % 0x1_0000) as nat);
        let inputs = next_parts(bytes, slots, Part::Input, word_at(bytes, 56));
        let outputs = next_parts(bytes, inputs, Part::Output, word_at(bytes, 64));
        next_parts(bytes, outputs, Part::Witness, word_at(bytes, 72))
    }
}

/// Where a mint transaction ends: the outputs, counted by the word at 24.
pub open spec fn mint_end(bytes: Seq<u8>) -> Option<int> {
    if bytes.len() < 32 {
        None
    } else {
        after_parts(bytes, 32, Part::Output, word_at(bytes, 24) as nat)
    }
}

/// Where the transaction that `bytes` starts with ends; `None` where the
/// first word names no kind, or a length or a count in it reaches past the
/// end of the bytes.
pub open spec fn frame_end(bytes: Seq<u8>) -> Option<int> {
    match kind_of(bytes) {
        Some(TransactionKind::Script) => script_end(bytes),
        Some(TransactionKind::Create) => create_end(bytes),
        Some(TransactionKind::Mint) => mint_end(bytes),
        None => None,
    }
}

/// Every part that the bytes announce lies inside them.
pub open spec fn frame_fits(bytes: Seq<u8>) -> bool {
    frame_end(bytes).is_some()
}

/// Bytes that are framed as a transaction announce their kind, are at
/// least as long as the smallest head, and hold the whole frame.
pub proof fn lemma_framed_bytes(bytes: Seq<u8>)
    requires
        frame_fits(bytes),
    ensures
        kind_of(bytes) is Some,
        bytes.len() >= 32,
        frame_end(bytes) matches Some(end) && 32 <= end <= bytes.len(),
{
    reveal(frame_end);
    reveal(kind_of);
    lemma_word_range(bytes, 0);
    match kind_of(bytes) {
        Some(TransactionKind::Script) => {
            lemma_word_range(bytes, 32);
            lemma_word_range(bytes, 40);
            lemma_word_range(bytes, 48);
            lemma_word_range(bytes, 56);
            lemma_word_range(bytes, 64);
            let script = after_bytes(bytes, 104, word_at(bytes, 32));
            let data = next_bytes(bytes, script, word_at(bytes, 40));
            let inputs = next_parts(bytes, data, Part::Input, word_at(bytes, 48));
            let outputs = next_parts(bytes, inputs, Part::Output, word_at(bytes, 56));
            lemma_after_parts_inside(bytes, data.unwrap(), Part::Input, word_at(bytes, 48) as nat);
            lemma_after_parts_inside(
                bytes,
                inputs.unwrap(),
                Part::Output,
                word_at(bytes, 56) as nat,
            );
            lemma_after_parts_inside(
                bytes,
                outputs.unwrap(),
                Part::Witness,
                word_at(bytes, 64) as nat,
            );
        },
        Some(TransactionKind::Create) => {
            lemma_word_range(bytes, 48);
            lemma_word_range(bytes, 56);
            lemma_word_range(bytes, 64);
            lemma_word_range(bytes, 72);
            let slots = after_parts(
                bytes,
                112,
                Part::StorageSlot,
                (word_at(bytes, 48) % 0x1_0000) as nat,
            );
            let inputs = next_parts(bytes, slots, Part::Input, word_at(bytes, 56));
            let outputs = next_parts(bytes, inputs, Part::Output, word_at(bytes, 64));
            lemma_after_parts_inside(
                bytes,
                112,
                Part::StorageSlot,
                (word_at(bytes, 48) % 0x1_0000) as nat,
            );
            lemma_after_parts_inside(bytes, slots.unwrap(), Part::Input, word_at(bytes, 56) as nat);
            lemma_after_parts_inside(
                bytes,
                inputs.unwrap(),
                Part::Output,
                word_at(bytes, 64) as nat,
            );
            lemma_after_parts_inside(
                bytes,
                outputs.unwrap(),
                Part::Witness,
                word_at(bytes, 72) as nat,
            );
        },
        Some(TransactionKind::Mint) => {
            lemma_word_range(bytes, 24);
            lemma_after_parts_inside(bytes, 32, Part::Output, word_at(bytes, 24) as nat);
        },
        None => {},
    }
}

/// A place found by executable code, as a mathematical integer.
pub open spec fn place(at: Option<usize>) -> Option<int> {
    match at {
        Some(p) => Some(p as int),
        None => None,
    }
}

/// A place that was found lies inside the bytes.
pub open spec fn inside(bytes: Seq<u8>, at: Option<int>) -> bool {
    match at {
        Some(p) => 0 <= p <= bytes.len(),
        None => true,
    }
}

/// A byte field never ends before it starts, nor past the bytes.
pub proof fn lemma_after_bytes_inside(bytes: Seq<u8>, at: int, len: int)
    requires
        0 <= at <= bytes.len(),
        0 <= len,
    ensures
        after_bytes(bytes, at, len) matches Some(p) ==> at <= p <= bytes.len(),
{
}

/// A part is at least a word long and ends inside the bytes.
pub proof fn lemma_after_part_inside(bytes: Seq<u8>, at: int, part: Part)
    requires
        0 <= at <= bytes.len(),
    ensures
        after_part(bytes, at, part) matches Some(p) ==> at + 8 <= p <= bytes.len(),
{
    if bytes.len() - at >= 8 {
        lemma_word_range(bytes, at);
    }
    if bytes.len() - at >= 168 {
        lemma_word_range(bytes, at + 128);
        lemma_word_range(bytes, at + 136);
        lemma_word_range(bytes, at + 144);
        lemma_word_range(bytes, at + 152);
        lemma_word_range(bytes, at + 160);
    } else if bytes.len() - at >= 152 {
        lemma_word_range(bytes, at + 128);
        lemma_word_range(bytes, at + 136);
        lemma_word_range(bytes, at + 144);
    }
}

/// A run of parts ends inside the bytes, and holds no more parts than the
/// bytes have words.
pub proof fn lemma_after_parts_inside(bytes: Seq<u8>, at: int, part: Part, count: nat)
    requires
        0 <= at <= bytes.len(),
    ensures
        after_parts(bytes, at, part, count) matches Some(p) ==> at + 8 * count <= p
            <= bytes.len(),
    decreases count,
{
    if count > 0 {
        lemma_after_part_inside(bytes, at, part);
        match after_part(bytes, at, part) {
            Some(next) => {
                lemma_after_parts_inside(bytes, next, part, (count - 1) as nat);
            },
            None => {},
        }
    }
}

/// A word is a number of 64 bits.
pub proof fn lemma_word_range(bytes: Seq<u8>, at: int)
    requires
        0 <= at,
        at + 8 <= bytes.len(),
    ensures
        0 <= word_at(bytes, at) <= u64::MAX,
{
}

/// A word of the bytes is the same word in any longer run of bytes.
pub proof fn lemma_word_extended(bytes: Seq<u8>, more: Seq<u8>, at: int)
    requires
        0 <= at,
        at + 8 <= bytes.len(),
    ensures
        word_at(bytes + more, at) == word_at(bytes, at),
{
}

/// A byte field that fits ends at the same place in any longer run of
/// bytes.
pub proof fn lemma_after_bytes_extended(bytes: Seq<u8>, more: Seq<u8>, at: int, len: int)
    requires
        after_bytes(bytes, at, len) is Some,
    ensures
        after_bytes(bytes + more, at, len) == after_bytes(bytes, at, len),
{
}

/// A part that fits ends at the same place in any longer run of bytes.
pub proof fn lemma_after_part_extended(bytes: Seq<u8>, more: Seq<u8>, at: int, part: Part)
    requires
        0 <= at <= bytes.len(),
        after_part(bytes, at, part) is Some,
    ensures
        after_part(bytes + more, at, part) == after_part(bytes, at, part),
{
    let longer = bytes + more;
    lemma_word_extended(bytes, more, at);
    lemma_word_range(bytes, at);
    match part {
        Part::StorageSlot => {},
        Part::Output => {},
        Part::Witness => {
            lemma_after_bytes_extended(bytes, more, at + 8, word_at(bytes, at));
        },
        Part::Input => {
            if word_at(bytes, at) == 0 {
                lemma_word_extended(bytes, more, at + 152);
                lemma_word_extended(bytes, more, at + 160);
                let predicate = after_bytes(bytes, at + 168, word_at(bytes, at + 152));
                lemma_after_bytes_extended(bytes, more, at + 168, word_at(bytes, at + 152));
                lemma_after_bytes_extended(
                    bytes,
                    more,
                    predicate.unwrap(),
                    word_at(bytes, at + 160),
                );
            } else if word_at(bytes, at) == 2 {
                lemma_word_extended(bytes, more, at + 128);
                lemma_word_extended(bytes, more, at + 136);
                lemma_word_extended(bytes, more, at + 144);
                let data = after_bytes(bytes, at + 152, word_at(bytes, at + 128));
                let predicate = next_bytes(bytes, data, word_at(bytes, at + 136));
                lemma_after_bytes_extended(bytes, more, at + 152, word_at(bytes, at + 128));
                lemma_after_bytes_extended(bytes, more, data.unwrap(), word_at(bytes, at + 136));
                lemma_after_bytes_extended(
                    bytes,
                    more,
                    predicate.unwrap(),
                    word_at(bytes, at + 144),
                );
            }
        },
    }
}

/// A run of parts that fits ends at the same place in any longer run of
/// bytes.
pub proof fn lemma_after_parts_extended(
    bytes: Seq<u8>,
    more: Seq<u8>,
    at: int,
    part: Part,
    count: nat,
)
    requires
        0 <= at <= bytes.len(),
        after_parts(bytes, at, part, count) is Some,
    ensures
        after_parts(bytes + more, at, part, count) == after_parts(bytes, at, part, count),
    decreases count,
{
    if count > 0 {
        lemma_after_part_extended(bytes, more, at, part);
        lemma_after_part_inside(bytes, at, part);
        lemma_after_parts_extended(
            bytes,
            more,
            after_part(bytes, at, part).unwrap(),
            part,
            (count - 1) as nat,
        );
    }
}

/// The frame is a matter of the framed bytes alone: whatever is put behind
/// bytes that are framed, the frame ends where it ended.
pub proof fn lemma_frame_extended(bytes: Seq<u8>, more: Seq<u8>)
    requires
        frame_fits(bytes),
    ensures
        frame_end(bytes + more) == frame_end(bytes),
        kind_of(bytes + more) == kind_of(bytes),
{
    reveal(frame_end);
    reveal(kind_of);
    lemma_framed_bytes(bytes);
    lemma_word_extended(bytes, more, 0);
    lemma_word_range(bytes, 0);
    match kind_of(bytes) {
        Some(TransactionKind::Script) => {
            lemma_word_extended(bytes, more, 32);
            lemma_word_extended(bytes, more, 40);
            lemma_word_extended(bytes, more, 48);
            lemma_word_extended(bytes, more, 56);
            lemma_word_extended(bytes, more, 64);
            lemma_word_range(bytes, 32);
            lemma_word_range(bytes, 40);
            lemma_word_range(bytes, 48);
            lemma_word_range(bytes, 56);
            lemma_word_range(bytes, 64);
            let script = after_bytes(bytes, 104, word_at(bytes, 32));
            let data = next_bytes(bytes, script, word_at(bytes, 40));
            let inputs = next_parts(bytes, data, Part::Input, word_at(bytes, 48));
            let outputs = next_parts(bytes, inputs, Part::Output, word_at(bytes, 56));
            lemma_after_bytes_extended(bytes, more, 104, word_at(bytes, 32));
            lemma_after_bytes_extended(bytes, more, script.unwrap(), word_at(bytes, 40));
            lemma_after_parts_inside(bytes, data.unwrap(), Part::Input, word_at(bytes, 48) as nat);
            lemma_after_parts_extended(
                bytes,
                more,
                data.unwrap(),
                Part::Input,
                word_at(bytes, 48) as nat,
            );
            lemma_after_parts_inside(
                bytes,
                inputs.unwrap(),
                Part::Output,
                word_at(bytes, 56) as nat,
            );
            lemma_after_parts_extended(
                bytes,
                more,
                inputs.unwrap(),
                Part::Output,
                word_at(bytes, 56) as nat,
            );
            lemma_after_parts_extended(
                bytes,
                more,
                outputs.unwrap(),
                Part::Witness,
                word_at(bytes, 64) as nat,
            );
        },
        Some(TransactionKind::Create) => {
            lemma_word_extended(bytes, more, 48);
            lemma_word_extended(bytes, more, 56);
            lemma_word_extended(bytes, more, 64);
            lemma_word_extended(bytes, more, 72);
            lemma_word_range(bytes, 48);
            lemma_word_range(bytes, 56);
            lemma_word_range(bytes, 64);
            lemma_word_range(bytes, 72);
            let count = (word_at(bytes, 48) % 0x1_0000) as nat;
            let slots = after_parts(bytes, 112, Part::StorageSlot, count);
            let inputs = next_parts(bytes, slots, Part::Input, word_at(bytes, 56));
            let outputs = next_parts(bytes, inputs, Part::Output, word_at(bytes, 64));
            lemma_after_parts_inside(bytes, 112, Part::StorageSlot, count);
            lemma_after_parts_extended(bytes, more, 112, Part::StorageSlot, count);
            lemma_after_parts_inside(bytes, slots.unwrap(), Part::Input, word_at(bytes, 56) as nat);
            lemma_after_parts_extended(
                bytes,
                more,
                slots.unwrap(),
                Part::Input,
                word_at(bytes, 56) as nat,
            );
            lemma_after_parts_inside(
                bytes,
                inputs.unwrap(),
                Part::Output,
                word_at(bytes, 64) as nat,
            );
            lemma_after_parts_extended(
                bytes,
                more,
                inputs.unwrap(),
                Part::Output,
                word_at(bytes, 64) as nat,
            );
            lemma_after_parts_extended(
                bytes,
                more,
                outputs.unwrap(),
                Part::Witness,
                word_at(bytes, 72) as nat,
            );
        },
        Some(TransactionKind::Mint) => {
            lemma_word_extended(bytes, more, 24);
            lemma_word_range(bytes, 24);
            lemma_after_parts_extended(bytes, more, 32, Part::Output, word_at(bytes, 24) as nat);
        },
        None => {},
    }
}

/// Reads the big-endian word that starts at byte `at`.
pub fn read_word(bytes: &[u8], at: usize) -> (word: u64)
    requires
        at + 8 <= bytes@.len(),
    ensures
        word == word_at(bytes@, at as int),
{
    let b0: u64 = bytes[at] as u64;
    let b1: u64 = bytes[at + 1] as u64;
    let b2: u64 = bytes[at + 2] as u64;
    let b3: u64 = bytes[at + 3] as u64;
    let b4: u64 = bytes[at + 4] as u64;
    let b5: u64 = bytes[at + 5] as u64;
    let b6: u64 = bytes[at + 6] as u64;
    let b7: u64 = bytes[at + 7] as u64;
    b0 * 0x0100_0000_0000_0000 + b1 * 0x0001_0000_0000_0000 + b2 * 0x0000_0100_0000_0000 + b3
        * 0x0000_0001_0000_0000 + b4 * 0x0000_0000_0100_0000 + b5 * 0x0000_0000_0001_0000 + b6
        * 0x0000_0000_0000_0100 + b7
}

/// Steps over a byte field of `len` bytes and its padding.
pub fn skip_bytes(bytes: &[u8], at: usize, len: u64) -> (end: Option<usize>)
    requires
        at <= bytes@.len(),
    ensures
        place(end) == after_bytes(bytes@, at as int, len as int),
{
    let room: u64 = (bytes.len() - at) as u64;
    if len > room {
        return None;
    }
    let rest: u64 = len % 8;
    if rest == 0 {
        Some(at + len as usize)
    } else if room - len < 8 - rest {
        None
    } else {
        Some(at + (len + (8 - rest)) as usize)
    }
}

/// `skip_bytes` from a place that may already be lost.
pub fn skip_next_bytes(bytes: &[u8], at: Option<usize>, len: u64) -> (end: Option<usize>)
    requires
        inside(bytes@, place(at)),
    ensures
        place(end) == next_bytes(bytes@, place(at), len as int),
{
    match at {
        Some(p) => skip_bytes(bytes, p, len),
        None => None,
    }
}

/// Steps over one input.
pub fn skip_input(bytes: &[u8], at: usize) -> (end: Option<usize>)
    requires
        at <= bytes@.len(),
    ensures
        place(end) == after_input(bytes@, at as int),
{
    let room: usize = bytes.len() - at;
    if room < WORD_SIZE {
        return None;
    }
    let tag: u64 = read_word(bytes, at);
    if tag == 0 {
        if room < COIN_INPUT_HEAD {
            return None;
        }
        let predicate: u64 = read_word(bytes, at + 152);
        let predicate_data: u64 = read_word(bytes, at + 160);
        let end = skip_bytes(bytes, at + COIN_INPUT_HEAD, predicate);
        proof {
            lemma_after_bytes_inside(bytes@, at + 168, predicate as int);
        }
        skip_next_bytes(bytes, end, predicate_data)
    } else if tag == 1 {
        if room < CONTRACT_INPUT_SIZE {
            None
        } else {
            Some(at + CONTRACT_INPUT_SIZE)
        }
    } else if tag == 2 {
        if room < MESSAGE_INPUT_HEAD {
            return None;
        }
        let data: u64 = read_word(bytes, at + 128);
        let predicate: u64 = read_word(bytes, at + 136);
        let predicate_data: u64 = read_word(bytes, at + 144);
        let end = skip_bytes(bytes, at + MESSAGE_INPUT_HEAD, data);
        proof {
            lemma_after_bytes_inside(bytes@, at + 152, data as int);
        }
        let end = skip_next_bytes(bytes, end, predicate);
        proof {
            if let Some(p) = after_bytes(bytes@, at + 152, data as int) {
                lemma_after_bytes_inside(bytes@, p, predicate as int);
            }
        }
        skip_next_bytes(bytes, end, predicate_data)
    } else {
        None
    }
}

/// Steps over one output.
pub fn skip_output(bytes: &[u8], at: usize) -> (end: Option<usize>)
    requires
        at <= bytes@.len(),
    ensures
        place(end) == after_output(bytes@, at as int),
{
    let room: usize = bytes.len() - at;
    if room < WORD_SIZE {
        return None;
    }
    let tag: u64 = read_word(bytes, at);
    let size: usize = if tag == 0 || tag == 3 || tag == 4 {
        COIN_OUTPUT_SIZE
    } else if tag == 1 {
        CONTRACT_OUTPUT_SIZE
    } else if tag == 2 {
        MESSAGE_OUTPUT_SIZE
    } else if tag == 5 {
        CREATED_OUTPUT_SIZE
    } else {
        return None;
    };
    if room < size {
        None
    } else {
        Some(at + size)
    }
}

/// Steps over one witness.
pub fn skip_witness(bytes: &[u8], at: usize) -> (end: Option<usize>)
    requires
        at <= bytes@.len(),
    ensures
        place(end) == after_witness(bytes@, at as int),
{
    if bytes.len() - at < WORD_SIZE {
        return None;
    }
    let len: u64 = read_word(bytes, at);
    skip_bytes(bytes, at + WORD_SIZE, len)
}

/// Steps over one part of the given sort.
pub fn skip_part(bytes: &[u8], at: usize, part: Part) -> (end: Option<usize>)
    requires
        at <= bytes@.len(),
    ensures
        place(end) == after_part(bytes@, at as int, part),
{
    match part {
        Part::StorageSlot => {
            if bytes.len() - at < SLOT_SIZE {
                None
            } else {
                Some(at + SLOT_SIZE)
            }
        },
        Part::Input => skip_input(bytes, at),
        Part::Output => skip_output(bytes, at),
        Part::Witness => skip_witness(bytes, at),
    }
}

/// Steps over a run of `count` parts, and stops at the first that does not
/// fit.
pub fn skip_parts(bytes: &[u8], at: usize, part: Part, count: u64) -> (end: Option<usize>)
    requires
        at <= bytes@.len(),
    ensures
        place(end) == after_parts(bytes@, at as int, part, count as nat),
{
    let mut here: usize = at;
    let mut done: u64 = 0;
    while done < count
        invariant
            done <= count,
            here <= bytes@.len(),
            after_parts(bytes@, at as int, part, count as nat) == after_parts(
                bytes@,
                here as int,
                part,
                (count - done) as nat,
            ),
        decreases count - done,
    {
        match skip_part(bytes, here, part) {
            Some(next) => {
                proof {
                    lemma_after_part_inside(bytes@, here as int, part);
                }
                here = next;
                done = done + 1;
            },
            None => {
                return None;
            },
        }
    }
    Some(here)
}

/// `skip_parts` from a place that may already be lost.
pub fn skip_next_parts(bytes: &[u8], at: Option<usize>, part: Part, count: u64) -> (end: Option<
    usize,
>)
    requires
        inside(bytes@, place(at)),
    ensures
        place(end) == next_parts(bytes@, place(at), part, count as int),
        inside(bytes@, place(end)),
{
    match at {
        Some(p) => {
            proof {
                lemma_after_parts_inside(bytes@, p as int, part, count as nat);
            }
            skip_parts(bytes, p, part, count)
        },
        None => None,
    }
}

/// The kind that the first word announces.
pub fn transaction_kind(bytes: &[u8]) -> (kind: Option<TransactionKind>)
    ensures
        kind == kind_of(bytes@),
{
    reveal(kind_of);
    if bytes.len() < WORD_SIZE {
        return None;
    }
    let tag: u64 = read_word(bytes, 0);
    if tag == 0 {
        Some(TransactionKind::Script)
    } else if tag == 1 {
        Some(TransactionKind::Create)
    } else if tag == 2 {
        Some(TransactionKind::Mint)
    } else {
        None
    }
}

/// Follows every length and count of the transaction that `bytes` starts
/// with, and returns where it ends, or `None` where one of them reaches past
/// the end of the bytes or the first word names no kind.
pub fn frame_length(bytes: &[u8]) -> (end: Option<usize>)
    ensures
        place(end) == frame_end(bytes@),
        end matches Some(n) ==> n <= bytes@.len(),
{
    reveal(frame_end);
    match transaction_kind(bytes) {
        None => None,
        Some(TransactionKind::Script) => {
            if bytes.len() < SCRIPT_HEAD {
                return None;
            }
            let script: u64 = read_word(bytes, 32);
            let data: u64 = read_word(bytes, 40);
            let inputs: u64 = read_word(bytes, 48);
            let outputs: u64 = read_word(bytes, 56);
            let witnesses: u64 = read_word(bytes, 64);
            let end = skip_bytes(bytes, SCRIPT_HEAD, script);
            proof {
                lemma_after_bytes_inside(bytes@, 104, script as int);
            }
            let end = skip_next_bytes(bytes, end, data);
            proof {
                if let Some(p) = after_bytes(bytes@, 104, script as int) {
                    lemma_after_bytes_inside(bytes@, p, data as int);
                }
            }
            let end = skip_next_parts(bytes, end, Part::Input, inputs);
            let end = skip_next_parts(bytes, end, Part::Output, outputs);
            skip_next_parts(bytes, end, Part::Witness, witnesses)
        },
        Some(TransactionKind::Create) => {
            if bytes.len() < CREATE_HEAD {
                return None;
            }
            let slots: u64 = read_word(bytes, 48) % 0x1_0000;
            let inputs: u64 = read_word(bytes, 56);
            let outputs: u64 = read_word(bytes, 64);
            let witnesses: u64 = read_word(bytes, 72);
            let end = skip_next_parts(bytes, Some(CREATE_HEAD), Part::StorageSlot, slots);
            let end = skip_next_parts(bytes, end, Part::Input, inputs);
            let end = skip_next_parts(bytes, end, Part::Output, outputs);
            skip_next_parts(bytes, end, Part::Witness, witnesses)
        },
        Some(TransactionKind::Mint) => {
            if bytes.len() < MINT_HEAD {
                return None;
            }
            let outputs: u64 = read_word(bytes, 24);
            skip_next_parts(bytes, Some(MINT_HEAD), Part::Output, outputs)
        },
    }
}

} // verus!
