//! Structured library errors.
use crate::strings::{chars_of, hex4, hex8, push_hex4, push_hex8, push_str, string_from_chars};
use vstd::prelude::*;

verus! {

/// Stable categories callers can use to decide whether to wait, reconnect, or reject data.
#[derive(Clone, Copy, Debug, PartialEq, Eq, Structural)]
#[non_exhaustive]
pub enum ErrorKind {
    /// A library argument is invalid.
    InvalidArgument,
    /// Native PC/SC reports no installed reader.
    NoReader,
    /// Readers exist, but none currently contains a card.
    NoCard,
    /// A connected card or reader disappeared or reset.
    CardRemoved,
    /// A native PC/SC operation failed.
    Pcsc,
    /// The card rejected an APDU or returned an invalid protocol response.
    Protocol,
    /// A card file was present but malformed or could not be decoded safely.
    InvalidData,
}

/// Error returned by the library.
#[derive(Clone, Debug)]
#[non_exhaustive]
pub struct Error {
    /// Machine-readable error category.
    pub kind: ErrorKind,
    /// Human-readable diagnostic with no cardholder field values.
    pub message: String,
    /// ISO 7816 status word when the failure came from the card itself.
    pub status_word: Option<u16>,
    /// Native PC/SC result code when the failure came from the PC/SC service.
    pub pcsc_code: Option<u32>,
}

/// The mathematical content of an [`Error`].
pub struct ErrorView {
    pub kind: ErrorKind,
    pub message: Seq<char>,
    pub status_word: Option<u16>,
    pub pcsc_code: Option<u32>,
}

impl View for Error {
    type V = ErrorView;

    open spec fn view(&self) -> ErrorView {
        ErrorView {
            kind: self.kind,
            message: self.message@,
            status_word: self.status_word,
            pcsc_code: self.pcsc_code,
        }
    }
}

/// An error of `kind` carrying only a diagnostic message.
pub open spec fn plain_error(kind: ErrorKind, message: Seq<char>) -> ErrorView {
    ErrorView { kind, message, status_word: None, pcsc_code: None }
}

/// The error for a card response with status word `sw`.
pub open spec fn apdu_error(sw: u16) -> ErrorView {
    ErrorView {
        kind: ErrorKind::Protocol,
        message: "Card APDU failed with status word "@ + hex4(sw),
        status_word: Some(sw),
        pcsc_code: None,
    }
}

/// PC/SC result codes that the error kinds distinguish.
pub open spec fn pcsc_kind(code: u32) -> ErrorKind {
    if code == 0x8010_002E {
        ErrorKind::NoReader
    } else if code == 0x8010_000C {
        ErrorKind::NoCard
    } else if code == 0x8010_0069 || code == 0x8010_0068 || code == 0x8010_0017 {
        ErrorKind::CardRemoved
    } else {
        ErrorKind::Pcsc
    }
}

/// The error for a failed PC/SC `operation` with result `code`.
pub open spec fn pcsc_error(operation: Seq<char>, code: u32) -> ErrorView {
    ErrorView {
        kind: pcsc_kind(code),
        message: operation + " failed with PC/SC error 0x"@ + hex8(code),
        status_word: None,
        pcsc_code: Some(code),
    }
}

impl Error {
    /// An error of `kind` with a diagnostic `message` and no status word.
    pub fn new(kind: ErrorKind, message: String) -> (e: Self)
        ensures
            e@ == plain_error(kind, message@),
    {
        Self { kind, message, status_word: None, pcsc_code: None }
    }

    /// An error of `kind` whose message is the literal `message`.
    pub fn from_str(kind: ErrorKind, message: &str) -> (e: Self)
        ensures
            e@ == plain_error(kind, message@),
    {
        Self::new(kind, String::from_str(message))
    }

    /// The error reported when the card answers with status word `status_word`.
    pub fn apdu(status_word: u16) -> (e: Self)
        ensures
            e@ == apdu_error(status_word),
    {
        let mut m = chars_of("Card APDU failed with status word ");
        push_hex4(&mut m, status_word);
        Self {
            kind: ErrorKind::Protocol,
            message: string_from_chars(m.as_slice()),
            status_word: Some(status_word),
            pcsc_code: None,
        }
    }

    /// The error reported when native PC/SC `operation` fails with result `code`.
    /// Absence and removal codes get their own kinds; the code is kept for diagnostics.
    pub fn pcsc(operation: &str, code: u32) -> (e: Self)
        ensures
            e@ == pcsc_error(operation@, code),
    {
        let kind = if code == 0x8010_002E {
            ErrorKind::NoReader
        } else if code == 0x8010_000C {
            ErrorKind::NoCard
        } else if code == 0x8010_0069 || code == 0x8010_0068 || code == 0x8010_0017 {
            ErrorKind::CardRemoved
        } else {
            ErrorKind::Pcsc
        };
        let mut m = chars_of(operation);
        push_str(&mut m, " failed with PC/SC error 0x");
        push_hex8(&mut m, code);
        Self {
            kind,
            message: string_from_chars(m.as_slice()),
            status_word: None,
            pcsc_code: Some(code),
        }
    }

    /// Returns the native PC/SC result code, when the failure came from PC/SC.
    pub fn pcsc_code(&self) -> (r: Option<u32>)
        ensures
            r == self@.pcsc_code,
    {
        self.pcsc_code
    }
}

/// A PC/SC failure keeps its result code and is sorted by it: "no readers
/// available" (`8010002E`) is `NoReader`, "no smart card" (`8010000C`) is
/// `NoCard`, "removed card" (`80100069`), "reset card" (`80100068`) and
/// "reader unavailable" (`80100017`) are `CardRemoved`, and every other code
/// is `Pcsc`. Only a card's own answer carries a status word.
pub proof fn lemma_pcsc_error_kinds(operation: Seq<char>, code: u32)
    ensures
        pcsc_error(operation, code).pcsc_code == Some(code),
        pcsc_error(operation, code).status_word is None,
        code == 0x8010_002E ==> pcsc_error(operation, code).kind == ErrorKind::NoReader,
        code == 0x8010_000C ==> pcsc_error(operation, code).kind == ErrorKind::NoCard,
        (code == 0x8010_0069 || code == 0x8010_0068 || code == 0x8010_0017) ==> pcsc_error(
            operation,
            code,
        ).kind == ErrorKind::CardRemoved,
        !(code == 0x8010_002E || code == 0x8010_000C || code == 0x8010_0069 || code == 0x8010_0068
            || code == 0x8010_0017) ==> pcsc_error(operation, code).kind == ErrorKind::Pcsc,
        apdu_error(code as u16).status_word == Some(code as u16) && apdu_error(code as u16).kind
            == ErrorKind::Protocol && apdu_error(code as u16).pcsc_code is None,
{
}

} // verus!
