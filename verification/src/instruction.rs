//! The instruction and its wire format.
//!
//! An instruction travels as one tag byte, the byte length of its memo as a
//! little-endian `u32`, and the memo's UTF-8 bytes, with nothing after them:
//!
//! ```text
//! byte 0        tag: 0 = OriginalMemo, 1 = CreateCompressedMemo
//! bytes 1..5    L, little-endian
//! bytes 5..5+L  the memo
//! ```
//!
//! [`wire_format`] is that layout as a function of the instruction, [`parse`]
//! is its inverse on byte strings, and the two exec functions compute them.
use crate::error::ExtendedSPLMemoError;
use vstd::prelude::*;
use vstd::slice::*;
use vstd::utf8::*;

verus! {

/// What the processor can be asked to do.
#[derive(Debug, PartialEq, Eq)]
pub enum ExtendedSPLMemoInstruction {
    /// Write the memo to the log.
    OriginalMemo { memo: String },
    /// Store the commitment of the memo in the target account.
    CreateCompressedMemo { memo: String },
}

/// An instruction as a mathematical value: the variant and the memo's
/// characters.
pub enum InstructionView {
    OriginalMemo { memo: Seq<char> },
    CreateCompressedMemo { memo: Seq<char> },
}

impl View for ExtendedSPLMemoInstruction {
    type V = InstructionView;

    open spec fn view(&self) -> InstructionView {
        match self {
            ExtendedSPLMemoInstruction::OriginalMemo { memo } => InstructionView::OriginalMemo {
                memo: memo@,
            },
            ExtendedSPLMemoInstruction::CreateCompressedMemo {
                memo,
            } => InstructionView::CreateCompressedMemo { memo: memo@ },
        }
    }
}

impl InstructionView {
    /// The tag byte of the variant.
    pub open spec fn tag(self) -> u8 {
        match self {
            InstructionView::OriginalMemo { .. } => 0,
            InstructionView::CreateCompressedMemo { .. } => 1,
        }
    }

    /// The memo, whichever the variant.
    pub open spec fn memo(self) -> Seq<char> {
        match self {
            InstructionView::OriginalMemo { memo } => memo,
            InstructionView::CreateCompressedMemo { memo } => memo,
        }
    }

    /// The memo's UTF-8 bytes.
    pub open spec fn memo_bytes(self) -> Seq<u8> {
        encode_utf8(self.memo())
    }

    /// Whether the memo's length fits the four-byte length field.
    pub open spec fn encodable(self) -> bool {
        self.memo_bytes().len() <= u32::MAX
    }
}

/// The four bytes of `n`, least significant first.
pub open spec fn le_bytes(n: u32) -> Seq<u8> {
    seq![
        (n % 256) as u8,
        (n / 256 % 256) as u8,
        (n / 65536 % 256) as u8,
        (n / 16777216) as u8,
    ]
}

/// The number whose little-endian bytes are the first four of `b`.
pub open spec fn le_value(b: Seq<u8>) -> int
    recommends
        b.len() >= 4,
{
    b[0] + 256 * b[1] + 65536 * b[2] + 16777216 * b[3]
}

/// The encoding of an instruction: tag, memo length, memo.
pub open spec fn wire_format(i: InstructionView) -> Seq<u8>
    recommends
        i.encodable(),
{
    seq![i.tag()] + le_bytes(i.memo_bytes().len() as u32) + i.memo_bytes()
}

/// The instruction that `bytes` encodes, if they encode one. The tag must be
/// known, the length field must count exactly the bytes that follow it, and
/// those bytes must be UTF-8.
pub open spec fn parse(bytes: Seq<u8>) -> Option<InstructionView> {
    if bytes.len() < 5 || bytes[0] > 1 {
        None
    } else {
        let text = bytes.skip(5);
        if le_value(bytes.subrange(1, 5)) != text.len() || !valid_utf8(text) {
            None
        } else if bytes[0] == 0 {
            Some(InstructionView::OriginalMemo { memo: decode_utf8(text) })
        } else {
            Some(InstructionView::CreateCompressedMemo { memo: decode_utf8(text) })
        }
    }
}

/// Little-endian bytes and their value are inverse to each other.
pub proof fn lemma_le_roundtrip(n: u32)
    ensures
        le_bytes(n).len() == 4,
        le_value(le_bytes(n)) == n,
{
}

/// Four bytes are the little-endian bytes of their value.
pub proof fn lemma_le_bytes_of_value(b: Seq<u8>)
    requires
        b.len() == 4,
    ensures
        0 <= le_value(b) <= u32::MAX,
        le_bytes(le_value(b) as u32) == b,
{
    let v = le_value(b);
    let upper = b[2] + 256 * b[3];
    let middle = b[1] + 256 * upper;
    assert(v == b[0] + 256 * middle);
    assert(v % 256 == b[0] && v / 256 == middle);
    assert(middle % 256 == b[1]);
    assert(v == (b[0] + 256 * b[1]) + 65536 * upper);
    assert(v / 65536 == upper);
    assert(upper % 256 == b[2]);
    assert(v == (b[0] + 256 * b[1] + 65536 * b[2]) + 16777216 * b[3]);
    assert(v / 16777216 == b[3]);
    assert(le_bytes(v as u32) =~= b);
}

/// Decoding undoes encoding: the bytes of an instruction parse back to it.
pub proof fn lemma_parse_wire_format(i: InstructionView)
    requires
        i.encodable(),
    ensures
        parse(wire_format(i)) == Some(i),
{
    let text = i.memo_bytes();
    let bytes = wire_format(i);
    lemma_le_roundtrip(text.len() as u32);
    assert(bytes.skip(5) =~= text);
    assert(bytes.subrange(1, 5) =~= le_bytes(text.len() as u32));
    encode_utf8_valid_utf8(i.memo());
    encode_utf8_decode_utf8(i.memo());
}

/// Encoding undoes decoding: bytes that parse are the encoding of what they
/// parse to, so no two byte strings stand for one instruction.
pub proof fn lemma_wire_format_parse(bytes: Seq<u8>)
    requires
        parse(bytes) is Some,
    ensures
        parse(bytes)->0.encodable(),
        wire_format(parse(bytes)->0) == bytes,
{
    let i = parse(bytes)->0;
    let text = bytes.skip(5);
    decode_utf8_encode_utf8(text);
    assert(i.memo_bytes() == text);
    lemma_le_bytes_of_value(bytes.subrange(1, 5));
    assert(wire_format(i) =~= bytes);
}

/// Std's `String::from_utf8` fails on this error when the bytes are not UTF-8.
#[verifier::external_type_specification]
#[verifier::external_body]
pub struct ExFromUtf8Error(std::string::FromUtf8Error);

/// Std's `String::from_utf8`: it succeeds exactly on valid UTF-8, and the
/// string it gives then has the vector's bytes.
pub assume_specification[ String::from_utf8 ](vec: Vec<u8>) -> (r: Result<
    String,
    std::string::FromUtf8Error,
>)
    ensures
        r is Ok <==> valid_utf8(vec@),
        r matches Ok(s) ==> encode_utf8(s@) == vec@,
;

/// The number that four little-endian bytes stand for.
fn le_decode(b0: u8, b1: u8, b2: u8, b3: u8) -> (n: u32)
    ensures
        n == le_value(seq![b0, b1, b2, b3]),
{
    let low: u32 = b0 as u32 + 256 * (b1 as u32) + 65536 * (b2 as u32);
    low + 16777216 * (b3 as u32)
}

impl ExtendedSPLMemoInstruction {
    /// Decodes an instruction. Every byte string that is not exactly the
    /// encoding of an instruction is refused as `InvalidInstruction`.
    pub fn try_from_slice(v: &[u8]) -> (r: Result<Self, ExtendedSPLMemoError>)
        ensures
            match r {
                Ok(i) => parse(v@) == Some(i@),
                Err(e) => e == ExtendedSPLMemoError::InvalidInstruction && parse(v@) is None,
            },
    {
        if v.len() < 5 {
            return Err(ExtendedSPLMemoError::InvalidInstruction);
        }
        let tag: u8 = v[0];
        if tag > 1 {
            return Err(ExtendedSPLMemoError::InvalidInstruction);
        }
        let declared: u32 = le_decode(v[1], v[2], v[3], v[4]);
        assert(v@.subrange(1, 5) =~= seq![v@[1], v@[2], v@[3], v@[4]]);
        if (v.len() - 5) as u64 != declared as u64 {
            return Err(ExtendedSPLMemoError::InvalidInstruction);
        }
        let text = slice_to_vec(slice_subrange(v, 5, v.len()));
        assert(text@ =~= v@.skip(5));
        match String::from_utf8(text) {
            Ok(memo) => {
                proof {
                    encode_utf8_decode_utf8(memo@);
                }
                if tag == 0 {
                    Ok(ExtendedSPLMemoInstruction::OriginalMemo { memo })
                } else {
                    Ok(ExtendedSPLMemoInstruction::CreateCompressedMemo { memo })
                }
            },
            Err(_) => Err(ExtendedSPLMemoError::InvalidInstruction),
        }
    }

    /// Encodes the instruction, or returns `None` where the memo is too long
    /// for its length to be written in four bytes.
    pub fn try_to_vec(&self) -> (r: Option<Vec<u8>>)
        ensures
            match r {
                Some(bytes) => self@.encodable() && bytes@ == wire_format(self@),
                None => !self@.encodable(),
            },
    {
        let (tag, memo): (u8, &String) = match self {
            ExtendedSPLMemoInstruction::OriginalMemo { memo } => (0, memo),
            ExtendedSPLMemoInstruction::CreateCompressedMemo { memo } => (1, memo),
        };
        let text: &[u8] = memo.as_str().as_bytes();
        if text.len() as u64 > 0xffff_ffff {
            return None;
        }
        let n: u32 = text.len() as u32;
        let mut bytes: Vec<u8> = Vec::new();
        bytes.push(tag);
        bytes.push((n % 256) as u8);
        bytes.push((n / 256 % 256) as u8);
        bytes.push((n / 65536 % 256) as u8);
        bytes.push((n / 16777216) as u8);
        let mut k: usize = 0;
        while k < text.len()
            invariant
                k <= text.len(),
                bytes@ == seq![tag] + le_bytes(n) + text@.take(k as int),
            decreases text.len() - k,
        {
            bytes.push(text[k]);
            assert(text@.take(k + 1) =~= text@.take(k as int).push(text@[k as int]));
            k += 1;
        }
        assert(text@.take(k as int) =~= text@);
        Some(bytes)
    }
}

} // verus!
