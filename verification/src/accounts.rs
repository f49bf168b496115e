//! The accounts each operation is handed: the diary it works on and the
//! storage slots it reads and writes.

use crate::directory::{Diary, DiaryView, SlotId};
use vstd::prelude::*;

verus! {

/// One account of the slot store: its identifier, the value it holds and its
/// raw bytes.
#[derive(Clone, Debug)]
pub struct AccountState {
    pub key: SlotId,
    pub lamports: u64,
    pub data: Vec<u8>,
}

/// What an account holds, as mathematical values.
pub struct AccountStateView {
    pub key: SlotId,
    pub lamports: u64,
    pub data: Seq<u8>,
}

impl View for AccountState {
    type V = AccountStateView;

    open spec fn view(&self) -> AccountStateView {
        AccountStateView { key: self.key, lamports: self.lamports, data: self.data@ }
    }
}

/// The accounts of `create_diary`: the diary to fill in, freshly allocated
/// by the store, and the nonce the store derived its address with.
#[derive(Clone, Debug)]
pub struct CreateDiary {
    pub diary_account: Diary,
    pub bump: u8,
}

/// What `CreateDiary` holds, as mathematical values.
pub struct CreateDiaryView {
    pub diary_account: DiaryView,
    pub bump: u8,
}

impl View for CreateDiary {
    type V = CreateDiaryView;

    open spec fn view(&self) -> CreateDiaryView {
        CreateDiaryView { diary_account: self.diary_account@, bump: self.bump }
    }
}

/// The accounts of `add_record`: the diary and the record slot to patch.
#[derive(Clone, Debug)]
pub struct AddRecord {
    pub diary_account: Diary,
    pub records_account: AccountState,
}

/// What `AddRecord` holds, as mathematical values.
pub struct AddRecordView {
    pub diary_account: DiaryView,
    pub records_account: AccountStateView,
}

impl View for AddRecord {
    type V = AddRecordView;

    open spec fn view(&self) -> AddRecordView {
        AddRecordView {
            diary_account: self.diary_account@,
            records_account: self.records_account@,
        }
    }
}

/// The accounts of `remove_record`: the caller who is refunded, the diary
/// and the record slot to close.
#[derive(Clone, Debug)]
pub struct RemoveRecord {
    pub authority: AccountState,
    pub diary_account: Diary,
    pub records_account: AccountState,
}

/// What `RemoveRecord` holds, as mathematical values.
pub struct RemoveRecordView {
    pub authority: AccountStateView,
    pub diary_account: DiaryView,
    pub records_account: AccountStateView,
}

impl View for RemoveRecord {
    type V = RemoveRecordView;

    open spec fn view(&self) -> RemoveRecordView {
        RemoveRecordView {
            authority: self.authority@,
            diary_account: self.diary_account@,
            records_account: self.records_account@,
        }
    }
}

} // verus!
