//! Decoding a transaction from hexadecimal text, and encoding it back.

use crate::digits::{decode_text, hex_bytes, hex_text, is_digit, is_hex_text, prefixed_text};
use crate::digits::{lemma_prefixed_bytes, lemma_text_round_trip, write_prefixed};
use crate::engine::{parses, tx_digest, tx_parses};
use crate::frame::{frame_fits, frame_length, kind_of, lemma_framed_bytes};
use crate::frame::{transaction_kind, TransactionKind};
use crate::identity::TransactionIdentity;
use vstd::prelude::*;
use vstd::slice::slice_subrange;
use vstd::string::StringSliceAdditionalSpecFns;
use vstd::utf8::encode_utf8;

verus! {

/// Why a text is no transaction.
#[derive(Clone, Copy, Debug, PartialEq, Eq, Structural)]
pub enum CodecError {
    /// What follows the optional prefix is not an even number of
    /// hexadecimal digits.
    InvalidHex,
    /// The digits stand for bytes that are no well-formed transaction.
    InvalidTransactionFormat,
}

/// A transaction as text: hexadecimal digits behind an optional `0x`.
/// Any text can be held; whether it is a transaction shows when it is
/// decoded.
#[derive(Clone, Debug, PartialEq, Eq)]
pub struct EncodedTransaction {
    text: String,
}

impl View for EncodedTransaction {
    type V = Seq<u8>;

    /// The bytes of the text.
    closed spec fn view(&self) -> Seq<u8> {
        encode_utf8(self.text@)
    }
}

impl EncodedTransaction {
    /// Holds a copy of `text`.
    pub fn new(text: &str) -> (encoded: EncodedTransaction)
        ensures
            encoded@ == text.spec_bytes(),
    {
        EncodedTransaction { text: String::from_str(text) }
    }

    /// The text.
    pub fn as_str(&self) -> (text: &str)
        ensures
            text.spec_bytes() == self@,
    {
        self.text.as_str()
    }
}

/// What a decoded transaction is: its kind, the bytes it was decoded from,
/// and its identifier once that has been computed.
pub struct TransactionView {
    pub kind: TransactionKind,
    pub bytes: Seq<u8>,
    pub identity: Option<Seq<u8>>,
}

/// Bytes that are a transaction: every part they announce lies inside
/// them, and the engine parses them.
pub open spec fn is_transaction(bytes: Seq<u8>) -> bool {
    &&& frame_fits(bytes)
    &&& tx_parses(bytes)
}

/// The bytes are a transaction of the stated kind, and an identifier that
/// is there is theirs.
pub open spec fn well_formed(tx: TransactionView) -> bool {
    &&& is_transaction(tx.bytes)
    &&& kind_of(tx.bytes) == Some(tx.kind)
    &&& tx.identity matches Some(id) ==> id == tx_digest(tx.bytes)
}

/// A transaction in binary form. It can only be made by decoding, so it is
/// always well formed.
#[derive(Debug, PartialEq, Eq)]
pub struct DecodedTransaction {
    kind: TransactionKind,
    bytes: Vec<u8>,
    identity: Option<TransactionIdentity>,
}

impl View for DecodedTransaction {
    type V = TransactionView;

    closed spec fn view(&self) -> TransactionView {
        TransactionView {
            kind: self.kind,
            bytes: self.bytes@,
            identity: match self.identity {
                Some(id) => Some(id@),
                None => None,
            },
        }
    }
}

impl Clone for DecodedTransaction {
    fn clone(&self) -> (copy: DecodedTransaction)
        ensures
            copy@ == self@,
    {
        proof {
            use_type_invariant(self);
        }
        DecodedTransaction { kind: self.kind, bytes: self.bytes.clone(), identity: self.identity }
    }
}

impl DecodedTransaction {
    #[verifier::type_invariant]
    pub closed spec fn valid(&self) -> bool {
        well_formed(self@)
    }

    /// A transaction from bytes that are known to be one.
    pub(crate) fn assemble(kind: TransactionKind, bytes: Vec<u8>) -> (tx: DecodedTransaction)
        requires
            is_transaction(bytes@),
            kind_of(bytes@) == Some(kind),
        ensures
            tx@ == (TransactionView { kind, bytes: bytes@, identity: None }),
    {
        DecodedTransaction { kind, bytes, identity: None }
    }

    /// The identifier, if it has been computed.
    pub fn identity(&self) -> (identity: Option<TransactionIdentity>)
        ensures
            self@.identity == match identity {
                Some(id) => Some(id@),
                None => None,
            },
            well_formed(self@),
    {
        proof {
            use_type_invariant(self);
        }
        self.identity
    }

    /// Keeps the identifier with the transaction.
    pub(crate) fn keep_identity(&mut self, id: TransactionIdentity)
        requires
            id@ == tx_digest(old(self)@.bytes),
        ensures
            final(self)@ == (TransactionView { identity: Some(id@), ..old(self)@ }),
    {
        proof {
            use_type_invariant(&*self);
        }
        self.identity = Some(id);
    }

    /// Script, create or mint.
    pub fn kind(&self) -> (kind: TransactionKind)
        ensures
            kind == self@.kind,
    {
        self.kind
    }

    /// The bytes it was decoded from: framed as a transaction, and parsed
    /// by the engine.
    pub fn bytes(&self) -> (bytes: &[u8])
        ensures
            bytes@ == self@.bytes,
            well_formed(self@),
    {
        proof {
            use_type_invariant(self);
        }
        self.bytes.as_slice()
    }
}

/// Whether a text starts with `0x` or `0X`.
pub open spec fn has_prefix(text: Seq<u8>) -> bool {
    &&& text.len() >= 2
    &&& text[0] == 0x30
    &&& (text[1] == 0x78 || text[1] == 0x58)
}

/// The text without its prefix, if it has one.
pub open spec fn digits_of(text: Seq<u8>) -> Seq<u8> {
    if has_prefix(text) {
        text.subrange(2, text.len() as int)
    } else {
        text
    }
}

/// What decoding a text gives.
pub open spec fn decoded(text: Seq<u8>) -> Result<TransactionView, CodecError> {
    let digits = digits_of(text);
    let bytes = hex_bytes(digits);
    if !is_hex_text(digits) {
        Err(CodecError::InvalidHex)
    } else if !is_transaction(bytes) {
        Err(CodecError::InvalidTransactionFormat)
    } else {
        Ok(TransactionView { kind: kind_of(bytes).unwrap(), bytes, identity: None })
    }
}

/// The text of a transaction: `0x`, then its bytes in lower-case digits.
pub open spec fn encoded(tx: TransactionView) -> Seq<u8> {
    prefixed_text(tx.bytes)
}

/// Drops a leading `0x` or `0X`.
pub fn strip_prefix(text: &[u8]) -> (digits: &[u8])
    ensures
        digits@ == digits_of(text@),
{
    if text.len() >= 2 && text[0] == 0x30 && (text[1] == 0x78 || text[1] == 0x58) {
        slice_subrange(text, 2, text.len())
    } else {
        text
    }
}

/// Decodes a transaction from its text.
///
/// Fails with `InvalidHex` exactly where the text, without its optional
/// prefix, is not an even number of hexadecimal digits; otherwise with
/// `InvalidTransactionFormat` exactly where the bytes are not framed as a
/// transaction or the engine does not parse them. The engine is only
/// handed bytes that are framed.
pub fn decode(text: &EncodedTransaction) -> (r: Result<DecodedTransaction, CodecError>)
    ensures
        match r {
            Ok(tx) => decoded(text@) == Ok::<TransactionView, CodecError>(tx@),
            Err(e) => decoded(text@) == Err::<TransactionView, CodecError>(e),
        },
{
    let digits = strip_prefix(text.as_str().as_bytes());
    let bytes = match decode_text(digits) {
        Ok(bytes) => bytes,
        Err(_) => {
            return Err(CodecError::InvalidHex);
        },
    };
    if frame_length(bytes.as_slice()).is_none() {
        return Err(CodecError::InvalidTransactionFormat);
    }
    if !parses(bytes.as_slice()) {
        return Err(CodecError::InvalidTransactionFormat);
    }
    proof {
        lemma_framed_bytes(bytes@);
    }
    match transaction_kind(bytes.as_slice()) {
        Some(kind) => Ok(DecodedTransaction::assemble(kind, bytes)),
        None => Err(CodecError::InvalidTransactionFormat),
    }
}

/// Encodes a transaction as text: `0x`, then the bytes it was decoded from
/// in lower-case hexadecimal digits.
pub fn encode(tx: &DecodedTransaction) -> (text: EncodedTransaction)
    ensures
        text@ == encoded(tx@),
{
    let text = write_prefixed(tx.bytes());
    proof {
        lemma_prefixed_bytes(tx@.bytes);
    }
    EncodedTransaction { text }
}

/// Malformed hexadecimal text is `InvalidHex`: a text that, without its
/// prefix, has an odd number of characters or holds one that is no
/// hexadecimal digit never decodes, whatever bytes it may seem to hold.
pub proof fn lemma_malformed_hex(text: Seq<u8>)
    requires
        digits_of(text).len() % 2 == 1 || exists|i: int|
            0 <= i < digits_of(text).len() && !is_digit(#[trigger] digits_of(text)[i]),
    ensures
        decoded(text) == Err::<TransactionView, CodecError>(CodecError::InvalidHex),
{
}

/// Well-formed hexadecimal text whose bytes are no transaction is
/// `InvalidTransactionFormat`.
pub proof fn lemma_malformed_structure(text: Seq<u8>)
    requires
        is_hex_text(digits_of(text)),
        !is_transaction(hex_bytes(digits_of(text))),
    ensures
        decoded(text) == Err::<TransactionView, CodecError>(
            CodecError::InvalidTransactionFormat,
        ),
{
}

/// A text decodes exactly where its digits are well-formed hexadecimal
/// text and stand for a transaction.
pub proof fn lemma_decodes_iff(text: Seq<u8>)
    ensures
        decoded(text) is Ok <==> is_hex_text(digits_of(text)) && is_transaction(
            hex_bytes(digits_of(text)),
        ),
        decoded(text) matches Ok(tx) ==> well_formed(tx) && tx.bytes == hex_bytes(
            digits_of(text),
        ),
{
    if is_hex_text(digits_of(text)) && is_transaction(hex_bytes(digits_of(text))) {
        lemma_framed_bytes(hex_bytes(digits_of(text)));
    }
}

/// Decoding the text of a decoded transaction gives that transaction again:
/// for every text that decodes, encoding the result and decoding once more
/// changes nothing.
pub proof fn lemma_decode_encode_decode(text: Seq<u8>)
    ensures
        decoded(text) matches Ok(tx) ==> decoded(encoded(tx)) == decoded(text),
{
    if let Ok(tx) = decoded(text) {
        lemma_encoded_decodes(tx);
    }
}

/// Behind the prefix of a transaction's text stand its digits.
proof fn lemma_encoded_digits(bytes: Seq<u8>)
    ensures
        digits_of(prefixed_text(bytes)) == hex_text(bytes),
{
    let text = prefixed_text(bytes);
    assert(text[0] == 0x30u8 && text[1] == 0x78u8);
    assert(text.subrange(2, text.len() as int) =~= hex_text(bytes));
}

/// The text of a well-formed transaction whose identifier is not yet
/// computed decodes to it.
pub proof fn lemma_encoded_decodes(tx: TransactionView)
    requires
        well_formed(tx),
        tx.identity is None,
    ensures
        decoded(encoded(tx)) == Ok::<TransactionView, CodecError>(tx),
{
    lemma_encoded_digits(tx.bytes);
    lemma_text_round_trip(tx.bytes);
}

} // verus!
