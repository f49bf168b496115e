//! Overwriting a byte range of a record's text in place.

use vstd::prelude::*;
use vstd::utf8::{
    encode_utf8, encode_utf8_valid_utf8, pop_first_scalar, valid_utf8, valid_utf8_concat,
};

verus! {

/// `n` zero bytes.
pub open spec fn zeros(n: nat) -> Seq<u8> {
    Seq::new(n, |i: int| 0u8)
}

/// `bytes` after `text` was written over it from `offset` on. The bytes in
/// front of `offset` and behind the written range stay; where `bytes` was too
/// short it is first extended with zero bytes. Nothing is inserted or shifted.
pub open spec fn patched(bytes: Seq<u8>, offset: int, text: Seq<u8>) -> Seq<u8> {
    let end = offset + text.len();
    let len = if bytes.len() < end {
        end
    } else {
        bytes.len() as int
    };
    Seq::new(
        len as nat,
        |i: int|
            if offset <= i < end {
                text[i - offset]
            } else if i < bytes.len() {
                bytes[i]
            } else {
                0u8
            },
    )
}

/// Writes `text` over `bytes` from `offset` on.
pub fn patch(bytes: Vec<u8>, offset: usize, text: &[u8]) -> (out: Vec<u8>)
    requires
        offset + text@.len() <= usize::MAX,
    ensures
        out@ == patched(bytes@, offset as int, text@),
{
    let ghost initial = bytes@;
    let end = offset + text.len();
    let mut out = bytes;
    if out.len() < end {
        out.resize(end, 0u8);
    }
    let ghost extended = out@;
    let mut i: usize = 0;
    while i < text.len()
        invariant
            i <= text@.len(),
            end == offset + text@.len(),
            end <= out@.len(),
            out@.len() == extended.len(),
            extended.len() == if initial.len() < end { end as int } else { initial.len() as int },
            forall|j: int| 0 <= j < initial.len() ==> extended[j] == initial[j],
            forall|j: int| initial.len() <= j < extended.len() ==> extended[j] == 0u8,
            forall|j: int| offset <= j < offset + i ==> out@[j] == text@[j - offset],
            forall|j: int|
                0 <= j < out@.len() && !(offset <= j < offset + i) ==> out@[j] == extended[j],
        decreases text@.len() - i,
    {
        out[offset + i] = text[i];
        i += 1;
    }
    let ghost want = patched(initial, offset as int, text@);
    assert forall|j: int| 0 <= j < out@.len() implies out@[j] == want[j] by {
        assert(!(offset <= j < end) ==> out@[j] == extended[j]);
    }
    out
}

/// Writing the same text at the same place a second time changes nothing.
pub proof fn lemma_patched_twice(bytes: Seq<u8>, offset: int, text: Seq<u8>)
    requires
        0 <= offset,
    ensures
        patched(patched(bytes, offset, text), offset, text) == patched(bytes, offset, text),
{
}

/// Zero bytes are text: each of them is the character NUL.
pub proof fn lemma_zeros_are_text(n: nat)
    ensures
        valid_utf8(zeros(n)),
    decreases n,
{
    if n > 0 {
        assert(pop_first_scalar(zeros(n)) =~= zeros((n - 1) as nat));
        lemma_zeros_are_text((n - 1) as nat);
    }
}

/// Text written to an empty record at `offset` gives `offset` zero bytes
/// and then the text, and that is text again.
pub proof fn lemma_patched_empty(offset: nat, text: Seq<char>)
    ensures
        patched(Seq::empty(), offset as int, encode_utf8(text)) == zeros(offset) + encode_utf8(
            text,
        ),
        valid_utf8(patched(Seq::empty(), offset as int, encode_utf8(text))),
{
    assert(patched(Seq::empty(), offset as int, encode_utf8(text)) =~= zeros(offset) + encode_utf8(
        text,
    ));
    lemma_zeros_are_text(offset);
    encode_utf8_valid_utf8(text);
    valid_utf8_concat(zeros(offset), encode_utf8(text));
}

} // verus!
