//! The health ping of the Docker engine.
//!
//! The engine is pinged over its unix control socket with a raw HTTP request.
//! The caller performs the steps of the exchange one by one; what each of them
//! brings decides on the next.

use vstd::prelude::*;
use vstd::utf8::{
    decode_utf8, encode_utf8, is_ascii_chars, is_ascii_chars_encode_utf8, valid_utf8,
};

use crate::text::{first_line, first_line_of_parts, leading_line, starts_with};

verus! {

/// Seconds granted to connecting, and again to reading the response.
pub const PING_TIMEOUT_SECS: u64 = 2;

/// Connecting has two seconds, and so has reading.
pub proof fn time_granted_to_ping()
    ensures
        PING_TIMEOUT_SECS == 2,
{
}

/// What is written to the socket once it is connected.
pub fn ping_request() -> (r: &'static str)
    ensures
        r@ == "GET /_ping HTTP/1.1\r\nHost: docker\r\nConnection: close\r\n\r\n"@,
{
    "GET /_ping HTTP/1.1\r\nHost: docker\r\nConnection: close\r\n\r\n"
}

/// The text of `bytes` where they may not be UTF-8, as `String::from_utf8_lossy`
/// makes it.
pub uninterp spec fn utf8_lossy(bytes: Seq<u8>) -> Seq<char>;

/// Calls `String::from_utf8_lossy`, which turns bytes into text and puts U+FFFD in
/// the place of what is not UTF-8. Bytes that are UTF-8 throughout become the
/// text that they encode. An ASCII byte becomes its own character and nothing else
/// becomes an ASCII character, so the result begins with an ASCII text exactly when
/// the bytes begin with that text's bytes.
#[verifier::external_body]
fn from_utf8_lossy(bytes: &[u8]) -> (r: String)
    ensures
        r@ == utf8_lossy(bytes@),
        valid_utf8(bytes@) ==> r@ == decode_utf8(bytes@),
        forall|p: Seq<char>|
            is_ascii_chars(p) ==> (#[trigger] p.is_prefix_of(r@) <==> encode_utf8(p).is_prefix_of(
                bytes@,
            )),
{
    String::from_utf8_lossy(bytes).into_owned()
}

/// The outcome of an attempt of which only a failure has something to tell.
pub open spec fn outcome_view(r: Result<(), String>) -> Result<(), Seq<char>> {
    match r {
        Ok(()) => Ok(()),
        Err(e) => Err(e@),
    }
}

/// What the text of a response says about the engine: it is up when the response
/// opens with an HTTP status of 200, else the first line is the complaint.
pub open spec fn ping_outcome(head: Seq<char>) -> Result<(), Seq<char>> {
    if "HTTP/1.1 200"@.is_prefix_of(head) || "HTTP/1.0 200"@.is_prefix_of(head) {
        Ok(())
    } else if head.len() == 0 {
        Err("docker ping returned: "@ + "<empty response>"@)
    } else {
        Err("docker ping returned: "@ + first_line(head))
    }
}

/// Whether the bytes of a response open with an HTTP status of 200.
pub open spec fn is_ok_response(response: Seq<u8>) -> bool {
    ||| encode_utf8("HTTP/1.1 200"@).is_prefix_of(response)
    ||| encode_utf8("HTTP/1.0 200"@).is_prefix_of(response)
}

/// A response is good exactly when it opens with the status 200 of HTTP 1.1 or 1.0,
/// byte for byte.
pub proof fn good_response_by_bytes(response: Seq<u8>)
    ensures
        is_ok_response(response) <==> {
            &&& response.len() >= 12
            &&& response[0] == 0x48 && response[1] == 0x54 && response[2] == 0x54
            &&& response[3] == 0x50 && response[4] == 0x2f && response[5] == 0x31
            &&& response[6] == 0x2e && (response[7] == 0x30 || response[7] == 0x31)
            &&& response[8] == 0x20 && response[9] == 0x32 && response[10] == 0x30
            &&& response[11] == 0x30
        },
{
    let (a, b) = ("HTTP/1.1 200"@, "HTTP/1.0 200"@);
    reveal_strlit("HTTP/1.1 200");
    reveal_strlit("HTTP/1.0 200");
    assert(is_ascii_chars(a) && is_ascii_chars(b));
    is_ascii_chars_encode_utf8(a);
    is_ascii_chars_encode_utf8(b);
    let (p, q) = (encode_utf8(a), encode_utf8(b));
    assert(p == seq![0x48u8, 0x54, 0x54, 0x50, 0x2f, 0x31, 0x2e, 0x31, 0x20, 0x32, 0x30, 0x30]) by {
        assert forall|i: int| 0 <= i < 12 implies #[trigger] p[i] == a[i] as u8 by {}
    }
    assert(q == seq![0x48u8, 0x54, 0x54, 0x50, 0x2f, 0x31, 0x2e, 0x30, 0x20, 0x32, 0x30, 0x30]) by {
        assert forall|i: int| 0 <= i < 12 implies #[trigger] q[i] == b[i] as u8 by {}
    }
    if response.len() >= 12 {
        let t = response.subrange(0, 12);
        assert forall|i: int| 0 <= i < 12 implies #[trigger] t[i] == response[i] by {}
        if p == t {
            assert(p[0] == t[0] && p[1] == t[1] && p[2] == t[2] && p[3] == t[3] && p[4] == t[4]);
            assert(p[5] == t[5] && p[6] == t[6] && p[7] == t[7] && p[8] == t[8] && p[9] == t[9]);
            assert(p[10] == t[10] && p[11] == t[11]);
        }
        if q == t {
            assert(q[0] == t[0] && q[1] == t[1] && q[2] == t[2] && q[3] == t[3] && q[4] == t[4]);
            assert(q[5] == t[5] && q[6] == t[6] && q[7] == t[7] && q[8] == t[8] && q[9] == t[9]);
            assert(q[10] == t[10] && q[11] == t[11]);
        }
    }
}

/// Of a response that does not open with the status 200 the complaint is the text up
/// to its first line feed, or to the carriage return in front of that; of one without
/// text, that it is empty.
pub proof fn complaint_is_first_line(head: Seq<char>, line: Seq<char>, rest: Seq<char>)
    requires
        head == line + rest,
        forall|i: int| 0 <= i < line.len() ==> #[trigger] line[i] != '\n',
        rest.len() == 0 || (rest[0] == '\n' && (line.len() > 0 ==> line.last() != '\r')) || (
        rest.len() > 1 && rest[0] == '\r' && rest[1] == '\n'),
    ensures
        ping_outcome(head) is Ok <==> {
            &&& head.len() >= 12
            &&& head[0] == 'H' && head[1] == 'T' && head[2] == 'T' && head[3] == 'P'
            &&& head[4] == '/' && head[5] == '1' && head[6] == '.'
            &&& head[7] == '0' || head[7] == '1'
            &&& head[8] == ' ' && head[9] == '2' && head[10] == '0' && head[11] == '0'
        },
        ping_outcome(head) matches Err(e) ==> e == if head.len() == 0 {
            "docker ping returned: <empty response>"@
        } else {
            "docker ping returned: "@ + line
        },
{
    let (a, b) = ("HTTP/1.1 200"@, "HTTP/1.0 200"@);
    reveal_strlit("HTTP/1.1 200");
    reveal_strlit("HTTP/1.0 200");
    reveal_strlit("docker ping returned: ");
    reveal_strlit("<empty response>");
    reveal_strlit("docker ping returned: <empty response>");
    assert("docker ping returned: "@ + "<empty response>"@
        == "docker ping returned: <empty response>"@);
    if head.len() >= 12 {
        let t = head.subrange(0, 12);
        assert forall|i: int| 0 <= i < 12 implies #[trigger] t[i] == head[i] by {}
        if a == t {
            assert(a[0] == t[0] && a[1] == t[1] && a[2] == t[2] && a[3] == t[3] && a[4] == t[4]);
            assert(a[5] == t[5] && a[6] == t[6] && a[7] == t[7] && a[8] == t[8] && a[9] == t[9]);
            assert(a[10] == t[10] && a[11] == t[11]);
        }
        if b == t {
            assert(b[0] == t[0] && b[1] == t[1] && b[2] == t[2] && b[3] == t[3] && b[4] == t[4]);
            assert(b[5] == t[5] && b[6] == t[6] && b[7] == t[7] && b[8] == t[8] && b[9] == t[9]);
            assert(b[10] == t[10] && b[11] == t[11]);
        }
    }
    first_line_of_parts(line, rest);
}

/// What the text of a response says about the engine.
pub fn judge_response(head: &str) -> (r: Result<(), String>)
    ensures
        outcome_view(r) == ping_outcome(head@),
{
    if starts_with(head, "HTTP/1.1 200") || starts_with(head, "HTTP/1.0 200") {
        Ok(())
    } else {
        let mut e = "docker ping returned: ".to_owned();
        match leading_line(head) {
            Some(line) => {
                e.append(line);
            },
            None => {
                e.append("<empty response>");
            },
        }
        Err(e)
    }
}

/// What the bytes of a response say about the engine.
pub fn read_response(response: &[u8]) -> (r: Result<(), String>)
    ensures
        outcome_view(r) == ping_outcome(utf8_lossy(response@)),
        valid_utf8(response@) ==> outcome_view(r) == ping_outcome(decode_utf8(response@)),
        r is Ok <==> is_ok_response(response@),
        r is Ok <==> {
            &&& response@.len() >= 12
            &&& response@[0] == 0x48 && response@[1] == 0x54 && response@[2] == 0x54
            &&& response@[3] == 0x50 && response@[4] == 0x2f && response@[5] == 0x31
            &&& response@[6] == 0x2e && (response@[7] == 0x30 || response@[7] == 0x31)
            &&& response@[8] == 0x20 && response@[9] == 0x32 && response@[10] == 0x30
            &&& response@[11] == 0x30
        },
{
    let head = from_utf8_lossy(response);
    proof {
        good_response_by_bytes(response@);
        reveal_strlit("HTTP/1.1 200");
        reveal_strlit("HTTP/1.0 200");
        assert(is_ascii_chars("HTTP/1.1 200"@));
        assert(is_ascii_chars("HTTP/1.0 200"@));
        assert("HTTP/1.1 200"@.is_prefix_of(head@) <==> encode_utf8(
            "HTTP/1.1 200"@,
        ).is_prefix_of(response@));
        assert("HTTP/1.0 200"@.is_prefix_of(head@) <==> encode_utf8(
            "HTTP/1.0 200"@,
        ).is_prefix_of(response@));
    }
    judge_response(head.as_str())
}

/// What a step of the exchange brought.
#[derive(Debug)]
pub enum PingEvent {
    /// There is nothing at the path of the socket.
    Missing,
    /// Something is at the path of the socket.
    Found,
    /// No connection was made in time.
    ConnectTimedOut,
    /// Connecting failed, for the reason given.
    ConnectFailed(String),
    /// The socket is connected.
    Connected,
    /// Writing the request failed, for the reason given.
    WriteFailed(String),
    /// The request is written.
    Written,
    /// The response did not end in time.
    ReadTimedOut,
    /// Reading the response failed, for the reason given.
    ReadFailed(String),
    /// The response has ended; these are its bytes.
    Replied(Vec<u8>),
}

/// What a [`PingEvent`] holds.
pub enum PingEventView {
    Missing,
    Found,
    ConnectTimedOut,
    ConnectFailed(Seq<char>),
    Connected,
    WriteFailed(Seq<char>),
    Written,
    ReadTimedOut,
    ReadFailed(Seq<char>),
    Replied(Seq<u8>),
}

impl View for PingEvent {
    type V = PingEventView;

    open spec fn view(&self) -> PingEventView {
        match self {
            PingEvent::Missing => PingEventView::Missing,
            PingEvent::Found => PingEventView::Found,
            PingEvent::ConnectTimedOut => PingEventView::ConnectTimedOut,
            PingEvent::ConnectFailed(e) => PingEventView::ConnectFailed(e@),
            PingEvent::Connected => PingEventView::Connected,
            PingEvent::WriteFailed(e) => PingEventView::WriteFailed(e@),
            PingEvent::Written => PingEventView::Written,
            PingEvent::ReadTimedOut => PingEventView::ReadTimedOut,
            PingEvent::ReadFailed(e) => PingEventView::ReadFailed(e@),
            PingEvent::Replied(b) => PingEventView::Replied(b@),
        }
    }
}

/// What is to be done next.
#[derive(Debug)]
pub enum PingAction {
    /// Look whether there is anything at the path of the socket.
    Locate,
    /// Connect to the socket.
    Connect,
    /// Write the request.
    Write,
    /// Read the response to its end.
    Read,
    /// Nothing: the ping is over, with this outcome.
    Finish(Result<(), String>),
}

/// What a [`PingAction`] holds.
pub enum PingActionView {
    Locate,
    Connect,
    Write,
    Read,
    Finish(Result<(), Seq<char>>),
}

impl View for PingAction {
    type V = PingActionView;

    open spec fn view(&self) -> PingActionView {
        match self {
            PingAction::Locate => PingActionView::Locate,
            PingAction::Connect => PingActionView::Connect,
            PingAction::Write => PingActionView::Write,
            PingAction::Read => PingActionView::Read,
            PingAction::Finish(r) => PingActionView::Finish(outcome_view(*r)),
        }
    }
}

/// What is to be done after `event` in the ping of the engine behind `socket`.
pub open spec fn ping_next(socket: Seq<char>, event: PingEventView) -> PingActionView {
    match event {
        PingEventView::Missing => PingActionView::Finish(
            Err("socket "@ + socket + " does not exist yet"@),
        ),
        PingEventView::Found => PingActionView::Connect,
        PingEventView::ConnectTimedOut => PingActionView::Finish(
            Err("timed out connecting to docker socket"@),
        ),
        PingEventView::ConnectFailed(e) => PingActionView::Finish(
            Err("cannot connect to docker socket: "@ + e),
        ),
        PingEventView::Connected => PingActionView::Write,
        PingEventView::WriteFailed(e) => PingActionView::Finish(
            Err("write to docker socket failed: "@ + e),
        ),
        PingEventView::Written => PingActionView::Read,
        PingEventView::ReadTimedOut => PingActionView::Finish(
            Err("timed out reading docker ping response"@),
        ),
        PingEventView::ReadFailed(e) => PingActionView::Finish(
            Err("read from docker socket failed: "@ + e),
        ),
        PingEventView::Replied(response) => PingActionView::Finish(
            ping_outcome(utf8_lossy(response)),
        ),
    }
}

fn complaint(what: &str, reason: &str) -> (r: PingAction)
    ensures
        r@ == PingActionView::Finish(Err(what@ + reason@)),
{
    let mut e = what.to_owned();
    e.append(reason);
    PingAction::Finish(Err(e))
}

/// What is to be done after `event` in the ping of the engine behind `socket`.
pub fn ping_step(socket: &str, event: &PingEvent) -> (r: PingAction)
    ensures
        r@ == ping_next(socket@, event@),
        event matches PingEvent::Replied(response) ==> (r matches PingAction::Finish(outcome)
            && (outcome is Ok <==> is_ok_response(response@))),
        event matches PingEvent::Replied(response) ==> valid_utf8(response@) ==> r@
            == PingActionView::Finish(ping_outcome(decode_utf8(response@))),
        match *event {
            PingEvent::Missing => r@ == PingActionView::Finish(
                Err("socket "@ + socket@ + " does not exist yet"@),
            ),
            PingEvent::Found => r is Connect,
            PingEvent::ConnectTimedOut => r@ == PingActionView::Finish(
                Err("timed out connecting to docker socket"@),
            ),
            PingEvent::ConnectFailed(e) => r@ == PingActionView::Finish(
                Err("cannot connect to docker socket: "@ + e@),
            ),
            PingEvent::Connected => r is Write,
            PingEvent::WriteFailed(e) => r@ == PingActionView::Finish(
                Err("write to docker socket failed: "@ + e@),
            ),
            PingEvent::Written => r is Read,
            PingEvent::ReadTimedOut => r@ == PingActionView::Finish(
                Err("timed out reading docker ping response"@),
            ),
            PingEvent::ReadFailed(e) => r@ == PingActionView::Finish(
                Err("read from docker socket failed: "@ + e@),
            ),
            PingEvent::Replied(b) => r is Finish,
        },
{
    match event {
        PingEvent::Missing => {
            let mut e = "socket ".to_owned();
            e.append(socket);
            e.append(" does not exist yet");
            PingAction::Finish(Err(e))
        },
        PingEvent::Found => PingAction::Connect,
        PingEvent::ConnectTimedOut => PingAction::Finish(
            Err("timed out connecting to docker socket".to_owned()),
        ),
        PingEvent::ConnectFailed(e) => complaint("cannot connect to docker socket: ", e.as_str()),
        PingEvent::Connected => PingAction::Write,
        PingEvent::WriteFailed(e) => complaint("write to docker socket failed: ", e.as_str()),
        PingEvent::Written => PingAction::Read,
        PingEvent::ReadTimedOut => PingAction::Finish(
            Err("timed out reading docker ping response".to_owned()),
        ),
        PingEvent::ReadFailed(e) => complaint("read from docker socket failed: ", e.as_str()),
        PingEvent::Replied(response) => PingAction::Finish(read_response(response.as_slice())),
    }
}

/// The ping goes from locating the socket to connecting, writing and reading; a step
/// that fails ends it with a complaint of its own, which names the socket or gives
/// the reason.
pub proof fn ping_goes_step_by_step(socket: Seq<char>, reason: Seq<char>)
    ensures
        ping_next(socket, PingEventView::Found) == PingActionView::Connect,
        ping_next(socket, PingEventView::Connected) == PingActionView::Write,
        ping_next(socket, PingEventView::Written) == PingActionView::Read,
        ping_next(socket, PingEventView::Missing) == PingActionView::Finish(
            Err("socket "@ + socket + " does not exist yet"@),
        ),
        ping_next(socket, PingEventView::ConnectTimedOut) == PingActionView::Finish(
            Err("timed out connecting to docker socket"@),
        ),
        ping_next(socket, PingEventView::ConnectFailed(reason)) == PingActionView::Finish(
            Err("cannot connect to docker socket: "@ + reason),
        ),
        ping_next(socket, PingEventView::WriteFailed(reason)) == PingActionView::Finish(
            Err("write to docker socket failed: "@ + reason),
        ),
        ping_next(socket, PingEventView::ReadTimedOut) == PingActionView::Finish(
            Err("timed out reading docker ping response"@),
        ),
        ping_next(socket, PingEventView::ReadFailed(reason)) == PingActionView::Finish(
            Err("read from docker socket failed: "@ + reason),
        ),
{
}

/// Whether `event` is one of those that `action` can bring.
pub open spec fn can_bring(action: PingActionView, event: PingEventView) -> bool {
    match action {
        PingActionView::Locate => event is Missing || event is Found,
        PingActionView::Connect => event is ConnectTimedOut || event is ConnectFailed
            || event is Connected,
        PingActionView::Write => event is WriteFailed || event is Written,
        PingActionView::Read => event is ReadTimedOut || event is ReadFailed || event is Replied,
        PingActionView::Finish(_) => false,
    }
}

/// Whether `events` are what an exchange brought so far: it begins with locating
/// the socket, and each event comes of the action that the one before called for.
pub open spec fn is_exchange(socket: Seq<char>, events: Seq<PingEventView>) -> bool {
    forall|i: int|
        0 <= i < events.len() ==> can_bring(
            if i == 0 {
                PingActionView::Locate
            } else {
                ping_next(socket, events[i - 1])
            },
            #[trigger] events[i],
        )
}

/// An exchange is over after four events at the latest, and it finds the engine
/// up only after the socket was found, connected, written to and read, with a
/// response that says so.
pub proof fn exchange_succeeds_only_in_full(socket: Seq<char>, events: Seq<PingEventView>)
    requires
        is_exchange(socket, events),
    ensures
        events.len() <= 4,
        events.len() > 0 && ping_next(socket, events.last()) == PingActionView::Finish(Ok(()))
            <==> {
            &&& events.len() == 4
            &&& events[0] is Found
            &&& events[1] is Connected
            &&& events[2] is Written
            &&& events[3] matches PingEventView::Replied(response)
            &&& ping_outcome(utf8_lossy(response)) is Ok
        },
{
    if events.len() > 0 {
        assert(can_bring(PingActionView::Locate, events[0]));
    }
    if events.len() > 1 {
        assert(can_bring(ping_next(socket, events[0]), events[1]));
    }
    if events.len() > 2 {
        assert(can_bring(ping_next(socket, events[1]), events[2]));
    }
    if events.len() > 3 {
        assert(can_bring(ping_next(socket, events[2]), events[3]));
    }
    if events.len() > 4 {
        assert(can_bring(ping_next(socket, events[3]), events[4]));
    }
}

} // verus!
