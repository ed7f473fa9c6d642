//! Decisions of a reader session that need no hardware: name checks, which
//! connection failure to report, presence, and transaction outcomes.
use crate::error::{plain_error, Error, ErrorKind, ErrorView};
use crate::strings::chars_of;
use vstd::prelude::*;

verus! {

/// A reader name PC/SC can be given: nonempty and without NUL.
pub open spec fn valid_reader_name(name: Seq<char>) -> bool {
    name.len() > 0 && !name.contains('\0')
}

/// The error for a reader name PC/SC cannot be given.
pub open spec fn reader_name_error() -> ErrorView {
    plain_error(ErrorKind::InvalidArgument, "Reader name must be nonempty and contain no NUL"@)
}

/// Rejects an empty reader name or one with an embedded NUL, before any
/// native call is made.
pub fn check_reader_name(name: &str) -> (r: Result<(), Error>)
    ensures
        r is Ok <==> valid_reader_name(name@),
        r matches Err(e) ==> e@ == reader_name_error(),
{
    let cs = chars_of(name);
    let mut ok = cs.len() > 0;
    let mut i: usize = 0;
    while i < cs.len()
        invariant
            cs@ == name@,
            i <= cs@.len(),
            ok == (cs@.len() > 0 && forall|j: int| 0 <= j < i ==> cs@[j] != '\0'),
        decreases cs@.len() - i,
    {
        if cs[i] == '\0' {
            ok = false;
        }
        i = i + 1;
    }
    if ok {
        assert(!name@.contains('\0'));
        Ok(())
    } else {
        Err(
            Error::from_str(
                ErrorKind::InvalidArgument,
                "Reader name must be nonempty and contain no NUL",
            ),
        )
    }
}

/// Failures that only mean a reader holds no card.
pub open spec fn is_absence(kind: ErrorKind) -> bool {
    kind == ErrorKind::NoCard
}

/// While trying readers in turn, the first failure other than an absent card
/// is kept; absent cards are skipped.
pub fn keep_first_failure(first: Option<Error>, failure: Error) -> (r: Option<Error>)
    ensures
        r == (if first is Some || is_absence(failure.kind) {
            first
        } else {
            Some(failure)
        }),
{
    if first.is_some() || failure.kind == ErrorKind::NoCard {
        first
    } else {
        Some(failure)
    }
}

/// The error for trying every reader without a connection: the kept failure,
/// or `NoCard` when every reader was empty.
pub fn connect_first_error(first: Option<Error>) -> (r: Error)
    ensures
        first matches Some(e) ==> r == e,
        first is None ==> r@ == plain_error(ErrorKind::NoCard, "No inserted smart card was found"@),
{
    match first {
        Some(e) => e,
        None => Error::from_str(ErrorKind::NoCard, "No inserted smart card was found"),
    }
}

/// Presence after a failed status query: a missing card, a removed or reset
/// card and a missing reader all mean the card is not present; any other
/// failure is reported.
pub fn presence_after_error(e: Error) -> (r: Result<bool, Error>)
    ensures
        (e.kind == ErrorKind::NoCard || e.kind == ErrorKind::CardRemoved || e.kind
            == ErrorKind::NoReader) ==> r == Ok::<bool, Error>(false),
        !(e.kind == ErrorKind::NoCard || e.kind == ErrorKind::CardRemoved || e.kind
            == ErrorKind::NoReader) ==> r == Err::<bool, Error>(e),
{
    if e.kind == ErrorKind::NoCard || e.kind == ErrorKind::CardRemoved || e.kind
        == ErrorKind::NoReader {
        Ok(false)
    } else {
        Err(e)
    }
}

/// A read under a transaction: a read error wins; after a successful read a
/// failure to end the transaction is reported.
pub fn transaction_result<T>(result: Result<T, Error>, end: Result<(), Error>) -> (r: Result<
    T,
    Error,
>)
    ensures
        match result {
            Err(e) => r == Err::<T, Error>(e),
            Ok(v) => match end {
                Ok(_) => r == Ok::<T, Error>(v),
                Err(e) => r == Err::<T, Error>(e),
            },
        },
{
    match result {
        Err(e) => Err(e),
        Ok(v) => match end {
            Ok(()) => Ok(v),
            Err(e) => Err(e),
        },
    }
}

/// What trying readers in turn keeps of their connection failures, as
/// [`keep_first_failure`] folds them in order.
pub open spec fn kept_failure(failures: Seq<Error>) -> Option<Error>
    decreases failures.len(),
{
    if failures.len() == 0 {
        None
    } else {
        let first = kept_failure(failures.drop_last());
        if first is Some || is_absence(failures.last().kind) {
            first
        } else {
            Some(failures.last())
        }
    }
}

/// Trying readers in turn reports the earliest failure that is not an absent
/// card, and nothing when every failure was an absent card.
pub proof fn lemma_kept_failure_is_earliest(failures: Seq<Error>)
    ensures
        match kept_failure(failures) {
            None => forall|i: int| 0 <= i < failures.len() ==> is_absence(#[trigger] failures[i].kind),
            Some(e) => exists|i: int|
                0 <= i < failures.len() && #[trigger] failures[i] == e && !is_absence(e.kind) && forall|
                    j: int,
                | 0 <= j < i ==> is_absence(#[trigger] failures[j].kind),
        },
    decreases failures.len(),
{
    if failures.len() > 0 {
        let rest = failures.drop_last();
        lemma_kept_failure_is_earliest(rest);
        match kept_failure(rest) {
            None => {
                assert forall|i: int| 0 <= i < rest.len() implies is_absence(
                    #[trigger] failures[i].kind,
                ) by {
                    assert(failures[i] == rest[i]);
                }
                if !is_absence(failures.last().kind) {
                    assert(failures[failures.len() - 1] == failures.last());
                }
            },
            Some(e) => {
                let i = choose|i: int|
                    0 <= i < rest.len() && #[trigger] rest[i] == e && !is_absence(e.kind) && forall|
                        j: int,
                    | 0 <= j < i ==> is_absence(#[trigger] rest[j].kind);
                assert(failures[i] == e);
                assert forall|j: int| 0 <= j < i implies is_absence(#[trigger] failures[j].kind) by {
                    assert(failures[j] == rest[j]);
                }
            },
        }
    }
}

/// The error for a PC/SC service that lists no reader.
pub open spec fn no_reader_error() -> ErrorView {
    plain_error(ErrorKind::NoReader, "No PC/SC reader is available"@)
}

/// Connecting to the first reader needs at least one listed reader.
pub fn check_readers_listed(count: usize) -> (r: Result<(), Error>)
    ensures
        r is Ok <==> count > 0,
        r matches Err(e) ==> e@ == no_reader_error(),
{
    if count == 0 {
        Err(Error::from_str(ErrorKind::NoReader, "No PC/SC reader is available"))
    } else {
        Ok(())
    }
}

/// Listing readers after a failed query: a service reporting that no reader
/// is available lists none (`None`); any other failure is reported.
pub fn reader_list_failure(e: Error) -> (r: Option<Error>)
    ensures
        e.kind == ErrorKind::NoReader ==> r is None,
        e.kind != ErrorKind::NoReader ==> r == Some(e),
{
    if e.kind == ErrorKind::NoReader {
        None
    } else {
        Some(e)
    }
}

} // verus!
