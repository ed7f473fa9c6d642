//! ISO 7816 response continuation and length correction for one command.
//!
//! [`ApduExchange`] holds the decisions of a single command exchange; the
//! caller transmits each command it names and hands back the card's reply.
use crate::error::{apdu_error, plain_error, Error, ErrorKind, ErrorView};
use vstd::prelude::*;

verus! {

/// Most card replies one command exchange may take.
pub const MAX_REPLIES: usize = 32;

/// The decision state of one command exchange.
pub struct ApduState {
    /// The command the caller asked to exchange.
    pub request: Seq<u8>,
    /// The command to transmit next.
    pub command: Seq<u8>,
    /// Response data gathered from earlier replies.
    pub response: Seq<u8>,
    /// The current command already had its expected length corrected.
    pub corrected: bool,
    /// Replies handled so far.
    pub replies: nat,
}

/// What an exchange asks for after a reply.
pub enum ApduOutcome {
    /// Transmit this command and report its reply to the exchange in this state.
    Send(ApduState, Seq<u8>),
    /// The exchange is over, with the response data or the error.
    Done(Result<Seq<u8>, ErrorView>),
}

/// A card reply: response data and status word, or a transport failure.
pub type ApduReply = Result<(Seq<u8>, u16), ErrorView>;

/// The exchange before any reply: the request is transmitted as it is.
pub open spec fn apdu_start(request: Seq<u8>) -> ApduState {
    ApduState { request, command: request, response: Seq::empty(), corrected: false, replies: 0 }
}

/// The request is a READ BINARY command.
pub open spec fn is_read_binary(request: Seq<u8>) -> bool {
    request.len() >= 2 && request[1] == 0xB0
}

/// The class byte for GET RESPONSE: the request's class without its chaining bit.
pub open spec fn get_response_class(request: Seq<u8>) -> u8 {
    (if request.len() > 0 {
        request[0]
    } else {
        0u8
    }) & 0xEF
}

/// The GET RESPONSE command asking for `available` bytes.
pub open spec fn get_response(request: Seq<u8>, available: u8) -> Seq<u8> {
    seq![get_response_class(request), 0xC0u8, 0x00u8, 0x00u8, available]
}

/// Position of the expected-length byte of `command`: the fifth byte of a
/// five-byte command, the last byte of a command carrying exactly `Lc` data
/// bytes and one expected-length byte, otherwise none.
pub open spec fn le_position(command: Seq<u8>) -> Option<int> {
    if command.len() == 5 {
        Some(4)
    } else if command.len() >= 5 && command.len() == 6 + command[4] {
        Some(command.len() - 1)
    } else {
        None
    }
}

/// The error for an exchange that keeps asking for more replies.
pub open spec fn chaining_limit_error() -> ErrorView {
    plain_error(ErrorKind::Protocol, "Card APDU exceeded the response-chaining limit"@)
}

/// The exchange goes on with `command`, or ends with the chaining-limit error
/// once it has used all its replies.
pub open spec fn apdu_continue(s: ApduState, command: Seq<u8>, response: Seq<u8>, corrected: bool) -> ApduOutcome {
    if s.replies + 1 >= MAX_REPLIES {
        ApduOutcome::Done(Err(chaining_limit_error()))
    } else {
        ApduOutcome::Send(
            ApduState { command, response, corrected, replies: s.replies + 1, ..s },
            command,
        )
    }
}

/// The decision taken on `reply`.
///
/// `9000` ends the exchange with all data; `6282` (end of file reached) does
/// so for READ BINARY only; `61xx` asks for the `xx` remaining bytes with GET
/// RESPONSE; one `6Cxx` per command resends it with expected length `xx`. Any
/// other status word, and a transport failure, ends the exchange with an error.
pub open spec fn apdu_step(s: ApduState, reply: ApduReply) -> ApduOutcome {
    match reply {
        Err(e) => ApduOutcome::Done(Err(e)),
        Ok((data, sw)) => if sw == 0x9000 || (sw == 0x6282 && is_read_binary(s.request)) {
            ApduOutcome::Done(Ok(s.response + data))
        } else if 0x6100 <= sw <= 0x61FF {
            apdu_continue(s, get_response(s.request, (sw % 256) as u8), s.response + data, false)
        } else if 0x6C00 <= sw <= 0x6CFF && s.command.len() >= 5 && !s.corrected {
            match le_position(s.command) {
                Some(k) => apdu_continue(
                    s,
                    s.command.update(k, (sw % 256) as u8),
                    s.response,
                    true,
                ),
                None => ApduOutcome::Done(Err(apdu_error(sw))),
            }
        } else {
            ApduOutcome::Done(Err(apdu_error(sw)))
        },
    }
}

/// One command exchange in progress.
pub struct ApduExchange {
    request: Vec<u8>,
    command: Vec<u8>,
    response: Vec<u8>,
    corrected: bool,
    replies: usize,
}

impl ApduExchange {
    /// An exchange in progress has replies left.
    #[verifier::type_invariant]
    spec fn replies_left(&self) -> bool {
        self.replies < MAX_REPLIES
    }
}

impl View for ApduExchange {
    type V = ApduState;

    closed spec fn view(&self) -> ApduState {
        ApduState {
            request: self.request@,
            command: self.command@,
            response: self.response@,
            corrected: self.corrected,
            replies: self.replies as nat,
        }
    }
}

/// The next move of an exchange.
pub enum ApduStep {
    /// Transmit the command and hand its reply to [`ApduExchange::on_reply`]
    /// of the exchange.
    Transmit(ApduExchange, Vec<u8>),
    /// The exchange is over.
    Finished(Result<Vec<u8>, Error>),
}

impl View for ApduStep {
    type V = ApduOutcome;

    open spec fn view(&self) -> ApduOutcome {
        match self {
            ApduStep::Transmit(x, c) => ApduOutcome::Send(x@, c@),
            ApduStep::Finished(Ok(d)) => ApduOutcome::Done(Ok(d@)),
            ApduStep::Finished(Err(e)) => ApduOutcome::Done(Err(e@)),
        }
    }
}

/// The model of a reply.
pub open spec fn reply_view(reply: Result<(Vec<u8>, u16), Error>) -> ApduReply {
    match reply {
        Ok((data, sw)) => Ok((data@, sw)),
        Err(e) => Err(e@),
    }
}

/// A new vector holding `bytes`.
pub fn copy_bytes(bytes: &[u8]) -> (r: Vec<u8>)
    ensures
        r@ == bytes@,
{
    let mut out: Vec<u8> = Vec::new();
    let mut i: usize = 0;
    while i < bytes.len()
        invariant
            i <= bytes@.len(),
            out@ == bytes@.take(i as int),
        decreases bytes@.len() - i,
    {
        out.push(bytes[i]);
        i = i + 1;
        assert(out@ =~= bytes@.take(i as int));
    }
    assert(bytes@.take(bytes@.len() as int) =~= bytes@);
    out
}

/// Appends `bytes` to `out`.
pub fn append_bytes(out: &mut Vec<u8>, bytes: &[u8])
    ensures
        final(out)@ == old(out)@ + bytes@,
{
    let mut i: usize = 0;
    while i < bytes.len()
        invariant
            i <= bytes@.len(),
            out@ == old(out)@ + bytes@.take(i as int),
        decreases bytes@.len() - i,
    {
        out.push(bytes[i]);
        i = i + 1;
        assert(out@ =~= old(out)@ + bytes@.take(i as int));
    }
    assert(bytes@.take(bytes@.len() as int) =~= bytes@);
}

impl ApduExchange {
    /// Starts exchanging `request`; it is the first command to transmit.
    pub fn new(request: &[u8]) -> (r: Self)
        ensures
            r@ == apdu_start(request@),
    {
        ApduExchange {
            request: copy_bytes(request),
            command: copy_bytes(request),
            response: Vec::new(),
            corrected: false,
            replies: 0,
        }
    }

    /// The command to transmit next.
    pub fn command(&self) -> (r: &[u8])
        ensures
            r@ == self@.command,
    {
        self.command.as_slice()
    }

    fn proceed(self, command: Vec<u8>, response: Vec<u8>, corrected: bool) -> (step: ApduStep)
        ensures
            step@ == apdu_continue(self@, command@, response@, corrected),
    {
        proof {
            use_type_invariant(&self);
        }
        if self.replies + 1 >= MAX_REPLIES {
            return ApduStep::Finished(
                Err(
                    Error::from_str(
                        ErrorKind::Protocol,
                        "Card APDU exceeded the response-chaining limit",
                    ),
                ),
            );
        }
        let next = ApduExchange {
            request: self.request,
            command: copy_bytes(command.as_slice()),
            response,
            corrected,
            replies: self.replies + 1,
        };
        ApduStep::Transmit(next, command)
    }

    /// Takes the decision on the card's `reply` to the current command.
    pub fn on_reply(self, reply: Result<(Vec<u8>, u16), Error>) -> (step: ApduStep)
        ensures
            step@ == apdu_step(self@, reply_view(reply)),
    {
        proof {
            use_type_invariant(&self);
        }
        let (data, sw) = match reply {
            Err(e) => return ApduStep::Finished(Err(e)),
            Ok(r) => r,
        };
        let read_binary = self.request.len() >= 2 && self.request[1] == 0xB0;
        if sw == 0x9000 || (sw == 0x6282 && read_binary) {
            let mut response = copy_bytes(self.response.as_slice());
            append_bytes(&mut response, data.as_slice());
            return ApduStep::Finished(Ok(response));
        }
        if 0x6100 <= sw && sw <= 0x61FF {
            let mut response = copy_bytes(self.response.as_slice());
            append_bytes(&mut response, data.as_slice());
            let first: u8 = if self.request.len() > 0 {
                self.request[0]
            } else {
                0
            };
            let command = vec![first & 0xEF, 0xC0, 0x00, 0x00, (sw % 256) as u8];
            assert(command@ =~= get_response(self@.request, (sw % 256) as u8));
            return self.proceed(command, response, false);
        }
        if 0x6C00 <= sw && sw <= 0x6CFF && self.command.len() >= 5 && !self.corrected {
            let len = self.command.len();
            let position: Option<usize> = if len == 5 {
                Some(4)
            } else if len == 6 + self.command[4] as usize {
                Some(len - 1)
            } else {
                None
            };
            match position {
                Some(k) => {
                    let mut command = copy_bytes(self.command.as_slice());
                    command.set(k, (sw % 256) as u8);
                    let response = copy_bytes(self.response.as_slice());
                    return self.proceed(command, response, true);
                },
                None => return ApduStep::Finished(Err(Error::apdu(sw))),
            }
        }
        ApduStep::Finished(Err(Error::apdu(sw)))
    }
}

/// The error for a card response too short to hold a status word.
pub open spec fn missing_status_word_error() -> ErrorView {
    plain_error(ErrorKind::Protocol, "Card response has no status word"@)
}

/// Splits a raw card response into its data and the trailing status word.
pub fn split_status_word(response: &[u8]) -> (r: Result<(Vec<u8>, u16), Error>)
    ensures
        response@.len() < 2 ==> (r matches Err(e) && e@ == missing_status_word_error()),
        response@.len() >= 2 ==> (r matches Ok((data, sw)) && data@ == response@.take(
            response@.len() - 2,
        ) && sw == response@[response@.len() - 2] as int * 256 + response@[response@.len()
            - 1] as int),
{
    if response.len() < 2 {
        return Err(Error::from_str(ErrorKind::Protocol, "Card response has no status word"));
    }
    let end = response.len() - 2;
    let data = copy_bytes(&response[0..end]);
    let sw: u16 = response[end] as u16 * 256 + response[end + 1] as u16;
    Ok((data, sw))
}

/// Every reply moves an exchange on by one: the request never changes, and
/// an exchange that goes on has the command it asks for as its current one
/// and replies left; it always ends by its [`MAX_REPLIES`]th reply.
pub proof fn lemma_apdu_step_progress(s: ApduState, reply: ApduReply)
    requires
        s.replies < MAX_REPLIES,
    ensures
        apdu_step(s, reply) matches ApduOutcome::Send(t, c) ==> ({
            &&& t.command == c
            &&& t.request == s.request
            &&& t.replies == s.replies + 1
            &&& t.replies < MAX_REPLIES
        }),
        s.replies + 1 == MAX_REPLIES ==> apdu_step(s, reply) is Done,
{
}

/// `9000` ends the exchange with the data of every earlier `61xx` reply
/// followed by the data of this one. So does `6282`, the end-of-file
/// warning, for READ BINARY; for any other command it is an error.
pub proof fn lemma_apdu_completion(s: ApduState, data: Seq<u8>)
    ensures
        apdu_step(s, Ok((data, 0x9000u16))) == ApduOutcome::Done(Ok(s.response + data)),
        apdu_step(s, Ok((data, 0x6282u16))) == if is_read_binary(s.request) {
            ApduOutcome::Done(Ok(s.response + data))
        } else {
            ApduOutcome::Done(Err(apdu_error(0x6282)))
        },
{
}

/// `61xx` keeps the reply's data and asks for the `xx` remaining bytes with
/// GET RESPONSE in the request's class (chaining bit cleared), while the
/// exchange has replies left; the new command may be corrected once again.
pub proof fn lemma_apdu_get_response(s: ApduState, data: Seq<u8>, sw: u16)
    requires
        0x6100 <= sw <= 0x61FF,
        s.replies + 1 < MAX_REPLIES,
    ensures
        apdu_step(s, Ok((data, sw))) matches ApduOutcome::Send(t, c) && c == get_response(
            s.request,
            (sw % 256) as u8,
        ) && t.response == s.response + data && !t.corrected,
{
}

/// `6Cxx` resends the current command with only its expected-length byte
/// changed to `xx`, once per command: the header and any `Lc` byte and data
/// stay as they were, and the reply's data is dropped. A second `6Cxx` for
/// the same command, or one for a command without an expected-length byte,
/// ends the exchange with the status word's error.
pub proof fn lemma_apdu_length_correction(s: ApduState, data: Seq<u8>, sw: u16)
    requires
        0x6C00 <= sw <= 0x6CFF,
        s.replies + 1 < MAX_REPLIES,
    ensures
        (s.corrected || le_position(s.command) is None) ==> apdu_step(s, Ok((data, sw)))
            == ApduOutcome::Done(Err(apdu_error(sw))),
        !s.corrected ==> (le_position(s.command) matches Some(k) ==> (apdu_step(
            s,
            Ok((data, sw)),
        ) matches ApduOutcome::Send(t, c) && c.len() == s.command.len() && c[k] == (sw
            % 256) as u8 && (forall|i: int|
            0 <= i < s.command.len() && i != k ==> c[i] == s.command[i]) && t.response
            == s.response && t.corrected)),
{
}

/// Any status word other than those above, and a failure of the transport,
/// ends the exchange with that error.
pub proof fn lemma_apdu_failure(s: ApduState, reply: ApduReply)
    requires
        reply matches Ok((_, sw)) ==> !(sw == 0x9000 || sw == 0x6282 || 0x6100 <= sw <= 0x61FF
            || 0x6C00 <= sw <= 0x6CFF),
    ensures
        apdu_step(s, reply) == ApduOutcome::Done(
            match reply {
                Ok((_, sw)) => Err(apdu_error(sw)),
                Err(e) => Err(e),
            },
        ),
{
}

/// The commands an exchange makes up: GET RESPONSE is `CLA C0 00 00 xx` with
/// the request's class byte, its chaining bit (`10`) cleared, and `xx` the
/// count the card announced; a length correction rewrites the fifth byte of a
/// five-byte command, or the last byte of a command with `Lc` data bytes and
/// an expected length; the end-of-file warning counts for instruction `B0`.
pub proof fn lemma_apdu_commands(request: Seq<u8>, command: Seq<u8>, available: u8)
    ensures
        get_response(request, available).len() == 5,
        request.len() > 0 ==> get_response(request, available)[0] == request[0] & 0xEF,
        request.len() == 0 ==> get_response(request, available)[0] == 0,
        get_response(request, available)[1] == 0xC0 && get_response(request, available)[2] == 0
            && get_response(request, available)[3] == 0,
        get_response(request, available)[4] == available,
        command.len() == 5 ==> le_position(command) == Some(4int),
        (command.len() > 5 && command.len() == 6 + command[4]) ==> le_position(command) == Some(
            command.len() - 1,
        ),
        (command.len() < 5 || (command.len() > 5 && command.len() != 6 + command[4]))
            ==> le_position(command) is None,
        is_read_binary(request) <==> (request.len() >= 2 && request[1] == 0xB0),
{
    assert((0u8 & 0xEF) == 0) by (bit_vector);
}

} // verus!
