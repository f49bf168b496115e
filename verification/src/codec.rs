//! The record codec: a record's text is stored as a four-byte little-endian
//! length followed by that many bytes of UTF-8. Bytes behind them are padding.

use crate::error::CustomError;
use crate::limits::RECORD_LEN;
use vstd::prelude::*;
use vstd::slice::{slice_subrange, slice_to_vec};
use vstd::utf8::{
    decode_utf8, decode_utf8_encode_utf8, encode_utf8, encode_utf8_decode_utf8,
    encode_utf8_valid_utf8, valid_utf8,
};

verus! {

/// Bytes taken by the length in front of a stored text.
pub const LENGTH_PREFIX_LEN: usize = 4;

/// The four bytes of `n`, least significant first.
pub open spec fn le_bytes(n: u32) -> Seq<u8> {
    seq![
        (n % 256) as u8,
        ((n / 256) % 256) as u8,
        ((n / 65536) % 256) as u8,
        (n / 16777216) as u8,
    ]
}

/// The number whose least significant byte is `b[0]`.
pub open spec fn le_value(b: Seq<u8>) -> int {
    b[0] + 256 * b[1] + 65536 * b[2] + 16777216 * b[3]
}

/// `payload` behind its length.
pub open spec fn frame(payload: Seq<u8>) -> Seq<u8> {
    le_bytes(payload.len() as u32) + payload
}

/// The payload that `data` starts with, if it starts with a length and at
/// least that many bytes.
pub open spec fn framed(data: Seq<u8>) -> Option<Seq<u8>> {
    if data.len() < LENGTH_PREFIX_LEN {
        None
    } else {
        let n = le_value(data.subrange(0, LENGTH_PREFIX_LEN as int));
        if LENGTH_PREFIX_LEN + n > data.len() {
            None
        } else {
            Some(data.subrange(LENGTH_PREFIX_LEN as int, LENGTH_PREFIX_LEN + n))
        }
    }
}

/// The stored form of `text`.
pub open spec fn encode_spec(text: Seq<char>) -> Seq<u8> {
    frame(encode_utf8(text))
}

/// The text that `data` starts with, if it starts with a stored text.
pub open spec fn decode_spec(data: Seq<u8>) -> Option<Seq<char>> {
    match framed(data) {
        Some(payload) => if valid_utf8(payload) {
            Some(decode_utf8(payload))
        } else {
            None
        },
        None => None,
    }
}

/// Whether `data` starts with a stored text and holds nothing but zero bytes
/// behind it.
pub open spec fn zero_padded(data: Seq<u8>) -> bool {
    match framed(data) {
        Some(payload) => valid_utf8(payload) && forall|i: int|
            LENGTH_PREFIX_LEN + payload.len() <= i < data.len() ==> data[i] == 0u8,
        None => false,
    }
}

/// Whether the stored form of `text` fits into a record slot.
pub open spec fn fits_slot(text: Seq<char>) -> bool {
    LENGTH_PREFIX_LEN + encode_utf8(text).len() <= RECORD_LEN
}

/// A length survives being written down and read back.
pub proof fn lemma_le_round_trip(n: u32)
    ensures
        le_bytes(n).len() == 4,
        le_value(le_bytes(n)) == n,
{
}

/// Reading a framed payload back gives the payload, whatever follows it.
pub proof fn lemma_framed_frame(payload: Seq<u8>, padding: Seq<u8>)
    requires
        payload.len() <= u32::MAX,
    ensures
        framed(frame(payload) + padding) == Some(payload),
{
    lemma_le_round_trip(payload.len() as u32);
}

/// A framed payload is four bytes longer than the payload, and what is put
/// behind it starts right behind it.
pub proof fn lemma_frame_rest(payload: Seq<u8>, rest: Seq<u8>)
    ensures
        frame(payload).len() == LENGTH_PREFIX_LEN + payload.len(),
        (frame(payload) + rest).skip(LENGTH_PREFIX_LEN + payload.len()) == rest,
{
}

/// A slot that starts with a framed text decodes to that text, whatever
/// follows it, and the text's bytes are the framed ones.
pub proof fn lemma_decode_frame(payload: Seq<u8>, rest: Seq<u8>)
    requires
        payload.len() <= u32::MAX,
        valid_utf8(payload),
    ensures
        decode_spec(frame(payload) + rest) == Some(decode_utf8(payload)),
        encode_utf8(decode_utf8(payload)) == payload,
{
    lemma_framed_frame(payload, rest);
    decode_utf8_encode_utf8(payload);
}

/// Decoding undoes encoding: a stored text followed by any padding, zero
/// bytes or others, decodes to that text.
pub proof fn lemma_decode_encode(text: Seq<char>, padding: Seq<u8>)
    requires
        encode_utf8(text).len() <= u32::MAX,
    ensures
        decode_spec(encode_spec(text) + padding) == Some(text),
{
    lemma_framed_frame(encode_utf8(text), padding);
    encode_utf8_valid_utf8(text);
    encode_utf8_decode_utf8(text);
}

/// One record: the text that a record slot holds.
#[derive(Debug)]
pub struct Record {
    pub text: String,
}

impl Record {
    /// The stored form of this record: its text behind the text's length.
    fn stored_form(&self) -> (out: Vec<u8>)
        requires
            encode_utf8(self.text@).len() <= u32::MAX,
        ensures
            out@ == encode_spec(self.text@),
    {
        let bytes = self.text.as_str().as_bytes();
        let n: u32 = bytes.len() as u32;
        let mut out: Vec<u8> = Vec::new();
        out.push((n % 256) as u8);
        out.push(((n / 256) % 256) as u8);
        out.push(((n / 65536) % 256) as u8);
        out.push((n / 16777216) as u8);
        out.extend_from_slice(bytes);
        out
    }

    /// The stored form of this record. Fails with `RecordTooLarge` exactly
    /// when that form is longer than a record slot.
    pub fn encode(&self) -> (r: Result<Vec<u8>, CustomError>)
        ensures
            fits_slot(self.text@) ==> r is Ok && r->Ok_0@ == encode_spec(self.text@),
            !fits_slot(self.text@) ==> r == Err::<Vec<u8>, CustomError>(
                CustomError::RecordTooLarge,
            ),
    {
        if self.text.as_str().as_bytes().len() > RECORD_LEN - LENGTH_PREFIX_LEN {
            return Err(CustomError::RecordTooLarge);
        }
        Ok(self.stored_form())
    }

    /// Writes the stored form of this record to the front of `dst` and leaves
    /// the bytes behind it as they are.
    pub fn pack_into_slice(&self, dst: &mut [u8])
        requires
            encode_utf8(self.text@).len() <= u32::MAX,
            LENGTH_PREFIX_LEN + encode_utf8(self.text@).len() <= old(dst)@.len(),
        ensures
            final(dst)@ == encode_spec(self.text@) + old(dst)@.skip(
                encode_spec(self.text@).len() as int,
            ),
    {
        let encoded = self.stored_form();
        let mut i: usize = 0;
        while i < encoded.len()
            invariant
                i <= encoded.len() <= dst@.len(),
                dst@.len() == old(dst)@.len(),
                dst@.take(i as int) == encoded@.take(i as int),
                dst@.skip(encoded.len() as int) == old(dst)@.skip(encoded.len() as int),
            decreases encoded.len() - i,
        {
            dst[i] = encoded[i];
            i += 1;
        }
        assert(dst@ =~= dst@.take(encoded.len() as int) + dst@.skip(encoded.len() as int));
    }

    /// Reads the record that `src` starts with. Bytes behind the stored text
    /// are not looked at. Fails with `DecodeError` exactly when `src` does not
    /// start with a length and that many bytes of UTF-8.
    pub fn unpack_from_slice(src: &[u8]) -> (r: Result<Record, CustomError>)
        ensures
            match decode_spec(src@) {
                Some(text) => r is Ok && r->Ok_0.text@ == text,
                None => r is Err && r->Err_0 == CustomError::DecodeError,
            },
    {
        if src.len() < LENGTH_PREFIX_LEN {
            return Err(CustomError::DecodeError);
        }
        let b0 = src[0] as u32;
        let b1 = src[1] as u32;
        let b2 = src[2] as u32;
        let b3 = src[3] as u32;
        let len = (b0 + 256 * b1 + 65536 * b2 + 16777216 * b3) as usize;
        if len > src.len() - LENGTH_PREFIX_LEN {
            return Err(CustomError::DecodeError);
        }
        let payload = slice_to_vec(slice_subrange(src, LENGTH_PREFIX_LEN, LENGTH_PREFIX_LEN + len));
        match String::from_utf8(payload) {
            Ok(text) => Ok(Record { text }),
            Err(_) => Err(CustomError::DecodeError),
        }
    }

    /// Stores `src` in the record slot `dst`. Fails with `InvalidAccountData`
    /// when `dst` is not as long as a record slot, and with `RecordTooLarge`
    /// when the stored form does not fit; `dst` is then left as it was.
    pub fn pack(src: Record, dst: &mut [u8]) -> (r: Result<(), CustomError>)
        ensures
            old(dst)@.len() != RECORD_LEN ==> r == Err::<(), CustomError>(
                CustomError::InvalidAccountData,
            ) && final(dst)@ == old(dst)@,
            old(dst)@.len() == RECORD_LEN && !fits_slot(src.text@) ==> r == Err::<(), CustomError>(
                CustomError::RecordTooLarge,
            ) && final(dst)@ == old(dst)@,
            old(dst)@.len() == RECORD_LEN && fits_slot(src.text@) ==> r is Ok && final(dst)@
                == encode_spec(src.text@) + old(dst)@.skip(encode_spec(src.text@).len() as int),
    {
        if dst.len() != RECORD_LEN {
            return Err(CustomError::InvalidAccountData);
        }
        if src.text.as_str().as_bytes().len() > RECORD_LEN - LENGTH_PREFIX_LEN {
            return Err(CustomError::RecordTooLarge);
        }
        src.pack_into_slice(dst);
        Ok(())
    }
}

} // verus!
