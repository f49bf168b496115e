//! An on-chain diary engine: a directory of record slots whose text can be
//! patched in place at a byte offset.

pub mod accounts;
pub mod codec;
pub mod directory;
pub mod engine;
pub mod error;
pub mod limits;
pub mod patch;
pub mod text;

pub use accounts::{AccountState, AddRecord, CreateDiary, RemoveRecord};
pub use codec::Record;
pub use directory::{Diary, SlotId};
pub use engine::{add_record, create_diary, remove_record};
pub use error::CustomError;
pub use limits::{DIARY_LEN, MAX_NAME_LENGHT, MAX_RECORDS, PUBKEY_BYTES, RECORD_LEN};
