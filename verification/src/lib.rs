//! Reading public identity data from Emirates ID contact chips.
//!
//! The library holds the decisions of a read and the decoding of the card's
//! public files. A read is driven by the caller: [`CardRead`] names each
//! command, [`ApduExchange`] handles the ISO 7816 continuation of one command,
//! and the caller exchanges the bytes with the card through its PC/SC service.
//! The result is an owned [`EmiratesIdData`] snapshot whose accessors never
//! touch the chip again.
pub mod apdu;
pub mod data;
pub mod decode;
pub mod error;
pub mod protocol;
pub mod report;
pub mod session;
pub mod strings;

pub use apdu::{ApduExchange, ApduStep};
pub use data::{
    CardGeneration, DataGroupStatus, EmiratesIdData, EmiratesIdDataBuilder, Gender, Language,
    ModifiableData, NonModifiableData, ReadOptions, ReadStatus, PROTECTED_AND_SKIPPED_FIELDS,
};
pub use error::{Error, ErrorKind};
pub use protocol::{CardRead, ReadStep};
