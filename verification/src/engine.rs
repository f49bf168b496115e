//! The three operations of the diary: create a diary, write text into a
//! record at a byte offset, and remove a record.

use crate::accounts::{
    AccountStateView, AddRecord, AddRecordView, CreateDiary, CreateDiaryView, RemoveRecord,
    RemoveRecordView,
};
use crate::codec::{
    decode_spec, frame, framed, lemma_decode_frame, lemma_frame_rest, lemma_framed_frame,
    zero_padded, Record, LENGTH_PREFIX_LEN,
};
use crate::directory::{lemma_remove_value_forgets, name_fits, DiaryView};
use crate::error::CustomError;
use crate::limits::{MAX_NAME_LENGHT, MAX_RECORDS, RECORD_LEN};
use crate::patch::{lemma_patched_empty, lemma_patched_twice, patch, patched, zeros};
use vstd::prelude::*;
use vstd::slice::slice_to_vec;
use vstd::utf8::{decode_utf8_encode_utf8, encode_utf8, valid_utf8};

verus! {

/// What `create_diary` leaves behind, or why it refuses.
pub open spec fn create_diary_spec(before: CreateDiaryView, id: u32, name: Seq<char>) -> Result<
    CreateDiaryView,
    CustomError,
> {
    if name_fits(name) {
        Ok(
            CreateDiaryView {
                diary_account: DiaryView { id, name, records: Seq::empty(), bump: before.bump },
                bump: before.bump,
            },
        )
    } else {
        Err(CustomError::NameIsTooLong)
    }
}

/// Fills in a new diary: no records, the given identity and name, and the
/// nonce of its address. A name of `MAX_NAME_LENGHT` bytes or more is
/// refused with `NameIsTooLong`, and nothing is changed.
pub fn create_diary(ctx: &mut CreateDiary, id: u32, name: String) -> (r: Result<(), CustomError>)
    ensures
        match create_diary_spec(old(ctx)@, id, name@) {
            Ok(after) => r is Ok && final(ctx)@ == after,
            Err(e) => r == Err::<(), CustomError>(e) && final(ctx)@ == old(ctx)@,
        },
        r is Ok <==> name_fits(name@),
        r is Ok ==> final(ctx)@.diary_account.name == name@ && final(ctx)@.diary_account.wf(),
{
    if name.as_str().as_bytes().len() >= MAX_NAME_LENGHT {
        return Err(CustomError::NameIsTooLong);
    }
    ctx.diary_account.records = Vec::new();
    ctx.diary_account.id = id;
    ctx.diary_account.name = name;
    ctx.diary_account.bump = ctx.bump;
    Ok(())
}

/// What `add_record` leaves behind, or why it refuses.
///
/// A slot the diary does not own yet starts from an empty text and is added
/// to the end of the diary's list; a slot it owns is decoded first. The text
/// is then overwritten from `offset` on, and written back to the front of the
/// slot. Bytes of the slot behind the stored text stay as they are.
pub open spec fn add_record_spec(before: AddRecordView, text: Seq<char>, offset: u32) -> Result<
    AddRecordView,
    CustomError,
> {
    let diary = before.diary_account;
    let slot = before.records_account;
    let known = diary.records.contains(slot.key);
    if !known && diary.records.len() >= MAX_RECORDS {
        Err(CustomError::DirectoryFull)
    } else if known && decode_spec(slot.data) is None {
        Err(CustomError::DecodeError)
    } else {
        let stored = if known {
            encode_utf8(decode_spec(slot.data)->Some_0)
        } else {
            Seq::empty()
        };
        let payload = patched(stored, offset as int, encode_utf8(text));
        if LENGTH_PREFIX_LEN + payload.len() > RECORD_LEN {
            Err(CustomError::RecordTooLarge)
        } else if !valid_utf8(payload) {
            Err(CustomError::InvalidUtf8)
        } else if slot.data.len() != RECORD_LEN {
            Err(CustomError::InvalidAccountData)
        } else {
            Ok(
                AddRecordView {
                    diary_account: DiaryView {
                        records: if known {
                            diary.records
                        } else {
                            diary.records.push(slot.key)
                        },
                        ..diary
                    },
                    records_account: AccountStateView {
                        data: frame(payload) + slot.data.skip(LENGTH_PREFIX_LEN + payload.len()),
                        ..slot
                    },
                },
            )
        }
    }
}

/// Writes `text` into the record slot of `ctx` from byte `offset` on, and
/// lists the slot in the diary if it is not listed yet. A refused operation
/// changes nothing.
pub fn add_record(ctx: &mut AddRecord, _id: u32, text: String, offset: u32) -> (r: Result<
    (),
    CustomError,
>)
    ensures
        match add_record_spec(old(ctx)@, text@, offset) {
            Ok(after) => r is Ok && final(ctx)@ == after,
            Err(e) => r == Err::<(), CustomError>(e) && final(ctx)@ == old(ctx)@,
        },
        ({
            let listed = old(ctx)@.diary_account.records;
            !listed.contains(old(ctx)@.records_account.key) && listed.len() >= MAX_RECORDS ==> r
                == Err::<(), CustomError>(CustomError::DirectoryFull) && final(ctx)@ == old(ctx)@
        }),
        ({
            let listed = old(ctx)@.diary_account.records;
            listed.len() <= MAX_RECORDS ==> final(ctx)@.diary_account.records.len() <= MAX_RECORDS
        }),
        old(ctx)@.diary_account.wf() ==> final(ctx)@.diary_account.wf(),
{
    let known = ctx.diary_account.position(&ctx.records_account.key).is_some();
    let stored: Vec<u8> = if known {
        match Record::unpack_from_slice(ctx.records_account.data.as_slice()) {
            Ok(record) => {
                proof {
                    decode_utf8_encode_utf8(framed(ctx.records_account.data@)->Some_0);
                }
                slice_to_vec(record.text.as_str().as_bytes())
            },
            Err(e) => {
                return Err(e);
            },
        }
    } else {
        if ctx.diary_account.records.len() >= MAX_RECORDS {
            return Err(CustomError::DirectoryFull);
        }
        Vec::new()
    };
    let text_bytes = text.as_str().as_bytes();
    let limit = RECORD_LEN - LENGTH_PREFIX_LEN;
    let start = offset as usize;
    if stored.len() > limit || text_bytes.len() > limit || start > limit || start
        + text_bytes.len() > limit {
        return Err(CustomError::RecordTooLarge);
    }
    let payload = patch(stored, start, text_bytes);
    let ghost payload_bytes = payload@;
    let record = match String::from_utf8(payload) {
        Ok(patched_text) => Record { text: patched_text },
        Err(_) => {
            return Err(CustomError::InvalidUtf8);
        },
    };
    proof {
        decode_utf8_encode_utf8(payload_bytes);
    }
    match Record::pack(record, ctx.records_account.data.as_mut_slice()) {
        Ok(()) => {},
        Err(e) => {
            return Err(e);
        },
    }
    if !known {
        let key = ctx.records_account.key;
        ctx.diary_account.records.push(key);
    }
    proof {
        let after = add_record_spec(old(ctx)@, text@, offset)->Ok_0;
        assert(ctx@.diary_account.records =~= after.diary_account.records);
    }
    Ok(())
}

/// The diary and the slot after `add_record`, whether it succeeded or
/// refused.
pub open spec fn after_add_record(before: AddRecordView, text: Seq<char>, offset: u32)
    -> AddRecordView {
    match add_record_spec(before, text, offset) {
        Ok(after) => after,
        Err(_) => before,
    }
}

/// Applying the same `add_record` a second time changes nothing: where the
/// first application succeeds, the second succeeds too and leaves the diary
/// and the slot exactly as the first left them; where it refuses, nothing
/// was changed and the second refuses alike.
pub proof fn lemma_add_record_twice(before: AddRecordView, text: Seq<char>, offset: u32)
    ensures
        add_record_spec(before, text, offset) matches Ok(once) ==> add_record_spec(
            once,
            text,
            offset,
        ) == Ok::<AddRecordView, CustomError>(once),
        after_add_record(after_add_record(before, text, offset), text, offset)
            == after_add_record(before, text, offset),
{
    if let Ok(once) = add_record_spec(before, text, offset) {
        let slot = before.records_account;
        let listed = before.diary_account.records;
        let known = listed.contains(slot.key);
        let stored = if known {
            encode_utf8(decode_spec(slot.data)->Some_0)
        } else {
            Seq::empty()
        };
        let written = encode_utf8(text);
        let payload = patched(stored, offset as int, written);
        let rest = slot.data.skip(LENGTH_PREFIX_LEN + payload.len());
        assert(once.diary_account.records.contains(slot.key)) by {
            if !known {
                assert(listed.push(slot.key)[listed.len() as int] == slot.key);
            }
        }
        lemma_decode_frame(payload, rest);
        lemma_patched_twice(stored, offset as int, written);
        let again = add_record_spec(once, text, offset);
        assert(again->Ok_0.records_account.data =~= once.records_account.data);
    }
}

/// Writing to a slot that the diary does not own yet, while the diary has
/// room, the slot has the size of a record slot and the text ends inside it,
/// always succeeds: the slot is listed last, and its text is `offset` zero
/// bytes followed by `text`.
pub proof fn lemma_add_record_unlisted(before: AddRecordView, text: Seq<char>, offset: u32)
    requires
        !before.diary_account.records.contains(before.records_account.key),
        before.diary_account.records.len() < MAX_RECORDS,
        before.records_account.data.len() == RECORD_LEN,
        LENGTH_PREFIX_LEN + offset + encode_utf8(text).len() <= RECORD_LEN,
    ensures
        add_record_spec(before, text, offset) matches Ok(after) && {
            let payload = zeros(offset as nat) + encode_utf8(text);
            &&& after.diary_account.records == before.diary_account.records.push(
                before.records_account.key,
            )
            &&& framed(after.records_account.data) == Some(payload)
            &&& decode_spec(after.records_account.data) is Some
        },
{
    lemma_patched_empty(offset as nat, text);
    let payload = zeros(offset as nat) + encode_utf8(text);
    let rest = before.records_account.data.skip(LENGTH_PREFIX_LEN + payload.len());
    lemma_decode_frame(payload, rest);
    lemma_frame_rest(payload, rest);
}

/// `add_record` keeps a slot zero-padded: a slot of the diary that held
/// nothing but zero bytes behind its text still does so afterwards, and so
/// does a blank slot once it is listed.
pub proof fn lemma_add_record_keeps_padding(before: AddRecordView, text: Seq<char>, offset: u32)
    requires
        before.diary_account.records.contains(before.records_account.key) ==> zero_padded(
            before.records_account.data,
        ),
        !before.diary_account.records.contains(before.records_account.key)
            ==> before.records_account.data == zeros(before.records_account.data.len()),
    ensures
        add_record_spec(before, text, offset) matches Ok(after) ==> zero_padded(
            after.records_account.data,
        ),
{
    if let Ok(after) = add_record_spec(before, text, offset) {
        let data = before.records_account.data;
        let known = before.diary_account.records.contains(before.records_account.key);
        let stored = if known {
            encode_utf8(decode_spec(data)->Some_0)
        } else {
            Seq::empty()
        };
        let payload = patched(stored, offset as int, encode_utf8(text));
        let rest = data.skip(LENGTH_PREFIX_LEN + payload.len());
        if known {
            decode_utf8_encode_utf8(framed(data)->Some_0);
        }
        lemma_framed_frame(payload, rest);
        let written = after.records_account.data;
        let end = LENGTH_PREFIX_LEN + payload.len();
        assert forall|i: int| end <= i < written.len() implies written[i] == 0u8 by {
            assert(rest[i - end] == data[i]);
        }
    }
}

/// What `remove_record` leaves behind.
///
/// Where the diary owns the slot, the slot's first entry leaves the list and
/// the entries behind it move up; the slot's value goes to the caller and
/// every byte of the slot is set to zero. Where it does not, nothing changes.
pub open spec fn remove_record_spec(before: RemoveRecordView) -> RemoveRecordView {
    let slot = before.records_account;
    if before.diary_account.records.contains(slot.key) {
        RemoveRecordView {
            authority: AccountStateView {
                lamports: (before.authority.lamports + slot.lamports) as u64,
                ..before.authority
            },
            diary_account: DiaryView {
                records: before.diary_account.records.remove_value(slot.key),
                ..before.diary_account
            },
            records_account: AccountStateView { lamports: 0, data: zeros(slot.data.len()), ..slot },
        }
    } else {
        before
    }
}

/// Sets every byte of `data` to zero.
pub fn wipe(data: &mut [u8])
    ensures
        final(data)@ == zeros(old(data)@.len()),
{
    let mut i: usize = 0;
    while i < data.len()
        invariant
            i <= data@.len(),
            data@.len() == old(data)@.len(),
            forall|j: int| 0 <= j < i ==> data@[j] == 0u8,
        decreases data@.len() - i,
    {
        data[i] = 0;
        i += 1;
    }
}

/// Removes the record slot of `ctx` from the diary, refunds the slot's value
/// to the caller and wipes the slot. For a slot that the diary does not own
/// this does nothing, and succeeds.
pub fn remove_record(ctx: &mut RemoveRecord, _id: u32) -> (r: Result<(), CustomError>)
    requires
        ({
            let before = old(ctx)@;
            before.diary_account.records.contains(before.records_account.key)
                ==> before.authority.lamports + before.records_account.lamports <= u64::MAX
        }),
    ensures
        r is Ok,
        final(ctx)@ == remove_record_spec(old(ctx)@),
        ({
            let before = old(ctx)@;
            !before.diary_account.records.contains(before.records_account.key) ==> final(ctx)@
                == before
        }),
        ({
            let key = old(ctx)@.records_account.key;
            old(ctx)@.diary_account.records.no_duplicates()
                ==> !final(ctx)@.diary_account.records.contains(key)
        }),
        ({
            let before = old(ctx)@;
            before.diary_account.records.contains(before.records_account.key)
                ==> final(ctx)@.records_account.data == zeros(before.records_account.data.len())
        }),
        old(ctx)@.diary_account.wf() ==> final(ctx)@.diary_account.wf(),
{
    match ctx.diary_account.position(&ctx.records_account.key) {
        Some(index) => {
            ctx.diary_account.records.remove(index);
            ctx.authority.lamports = ctx.authority.lamports + ctx.records_account.lamports;
            ctx.records_account.lamports = 0;
            wipe(ctx.records_account.data.as_mut_slice());
        },
        None => {},
    }
    proof {
        lemma_remove_value_forgets(
            old(ctx)@.diary_account.records,
            old(ctx)@.records_account.key,
        );
    }
    Ok(())
}

} // verus!
