//! The directory: a diary and its bounded, ordered list of slot identifiers.

use crate::limits::{MAX_NAME_LENGHT, MAX_RECORDS, PUBKEY_BYTES};
use vstd::prelude::*;
use vstd::utf8::encode_utf8;

verus! {

/// The identifier of a storage slot.
pub type SlotId = [u8; PUBKEY_BYTES];

/// A diary: its identity, its name, the record slots it owns in the order
/// in which they were added, and the nonce its address was derived with.
#[derive(Clone, Debug)]
pub struct Diary {
    pub id: u32,
    pub name: String,
    pub records: Vec<SlotId>,
    pub bump: u8,
}

/// What a diary holds, as mathematical values.
pub struct DiaryView {
    pub id: u32,
    pub name: Seq<char>,
    pub records: Seq<SlotId>,
    pub bump: u8,
}

impl View for Diary {
    type V = DiaryView;

    open spec fn view(&self) -> DiaryView {
        DiaryView { id: self.id, name: self.name@, records: self.records@, bump: self.bump }
    }
}

/// Whether `name` is short enough for a diary.
pub open spec fn name_fits(name: Seq<char>) -> bool {
    encode_utf8(name).len() < MAX_NAME_LENGHT
}

impl DiaryView {
    /// The invariant of a stored diary: a short name, a bounded list, and no
    /// slot listed twice.
    pub open spec fn wf(self) -> bool {
        &&& name_fits(self.name)
        &&& self.records.len() <= MAX_RECORDS
        &&& self.records.no_duplicates()
    }
}

impl Default for Diary {
    fn default() -> (diary: Diary)
        ensures
            diary@ == (DiaryView { id: 0, name: Seq::empty(), records: Seq::empty(), bump: 0 }),
            diary@.wf(),
    {
        Diary { id: 0, name: String::new(), records: Vec::new(), bump: 0 }
    }
}

/// Whether two identifiers name the same slot.
pub fn same_slot(a: &SlotId, b: &SlotId) -> (same: bool)
    ensures
        same == (*a == *b),
{
    let mut i: usize = 0;
    while i < PUBKEY_BYTES
        invariant
            i <= PUBKEY_BYTES,
            forall|j: int| 0 <= j < i ==> a[j] == b[j],
        decreases PUBKEY_BYTES - i,
    {
        if a[i] != b[i] {
            return false;
        }
        i += 1;
    }
    assert(*a =~= *b);
    true
}

impl Diary {
    /// The place of the first entry of `records` that is `key`, or `None`
    /// where the diary does not own that slot.
    pub fn position(&self, key: &SlotId) -> (found: Option<usize>)
        ensures
            match found {
                Some(index) => {
                    &&& index < self.records@.len()
                    &&& self.records@[index as int] == *key
                    &&& forall|j: int| 0 <= j < index ==> self.records@[j] != *key
                    &&& self.records@.index_of_first(*key) == Some(index as int)
                },
                None => {
                    &&& !self.records@.contains(*key)
                    &&& self.records@.index_of_first(*key) is None
                },
            },
    {
        let mut i: usize = 0;
        while i < self.records.len()
            invariant
                i <= self.records.len(),
                forall|j: int| 0 <= j < i ==> self.records@[j] != *key,
            decreases self.records.len() - i,
        {
            if same_slot(&self.records[i], key) {
                proof {
                    self.records@.index_of_first_ensures(*key);
                }
                return Some(i);
            }
            i += 1;
        }
        proof {
            self.records@.index_of_first_ensures(*key);
        }
        None
    }
}

/// Taking the first `value` out of a list makes it no longer, and keeps it
/// free of duplicates if it was; a list without duplicates then holds
/// `value` no more.
pub proof fn lemma_remove_value_forgets<A>(list: Seq<A>, value: A)
    ensures
        list.remove_value(value).len() <= list.len(),
        list.no_duplicates() ==> list.remove_value(value).no_duplicates(),
        list.no_duplicates() ==> !list.remove_value(value).contains(value),
{
    list.index_of_first_ensures(value);
}

} // verus!
