//! The error kinds an operation can end with.

use vstd::prelude::*;

verus! {

/// Why an operation was rejected. A rejected operation changes nothing.
#[derive(Clone, Copy, Debug, PartialEq, Eq, Structural)]
pub enum CustomError {
    /// The diary name is `MAX_NAME_LENGHT` bytes long or longer.
    NameIsTooLong,
    /// The patched record would not fit into a record slot.
    RecordTooLarge,
    /// The diary already references `MAX_RECORDS` slots.
    DirectoryFull,
    /// The slot's bytes do not start with a length-prefixed UTF-8 string.
    DecodeError,
    /// The patch would leave bytes in the record that are not UTF-8 text.
    InvalidUtf8,
    /// The slot does not have the size of a record slot.
    InvalidAccountData,
}

} // verus!
