use smolofis_panel::docker::{judge_response, ping_request, ping_step, read_response, PingAction, PingEvent};

const SOCKET: &str = "/nonexistent/smolofis-missing.sock";

/// Goes through an exchange; it ends before the events do.
fn exchange(socket: &str, events: Vec<PingEvent>) -> Result<(), String> {
    for event in events {
        if let PingAction::Finish(outcome) = ping_step(socket, &event) {
            return outcome;
        }
    }
    panic!("the exchange is not over");
}

fn reply(response: &[u8]) -> Result<(), String> {
    exchange(
        SOCKET,
        vec![
            PingEvent::Found,
            PingEvent::Connected,
            PingEvent::Written,
            PingEvent::Replied(response.to_vec()),
        ],
    )
}

#[test]
fn docker_ping_ok_on_200() {
    let result = reply(b"HTTP/1.1 200 OK\r\nContent-Length: 2\r\n\r\nOK");
    assert!(result.is_ok(), "expected Ok, got {result:?}");
}

#[test]
fn docker_ping_errors_on_non_200() {
    let result = reply(b"HTTP/1.1 500 Internal Server Error\r\n\r\n");
    let err = result.expect_err("non-200 must be an error");
    assert!(
        err.contains("500"),
        "error should surface the status: {err}"
    );
    assert_eq!(err, "docker ping returned: HTTP/1.1 500 Internal Server Error");
}

#[test]
fn docker_ping_errors_when_socket_missing() {
    let result = exchange(SOCKET, vec![PingEvent::Missing]);
    let err = result.expect_err("missing socket must be an error");
    assert!(err.contains("does not exist"), "got: {err}");
    assert_eq!(
        err,
        "socket /nonexistent/smolofis-missing.sock does not exist yet"
    );
}

#[test]
fn ping_ok_on_older_protocol() {
    assert_eq!(reply(b"HTTP/1.0 200 OK\r\n\r\n"), Ok(()));
    assert!(reply(b"HTTP/2.0 200 OK\r\n\r\n").is_err());
}

#[test]
fn ping_errors_on_empty_response() {
    assert_eq!(
        reply(b""),
        Err("docker ping returned: <empty response>".to_string())
    );
}

#[test]
fn ping_replaces_what_is_not_utf8() {
    assert_eq!(
        read_response(b"caf\xff\r\nmore"),
        Err("docker ping returned: caf\u{fffd}".to_string())
    );
    assert_eq!(read_response(b"HTTP/1.1 200 \xff\xfe"), Ok(()));
    assert!(read_response(b"\xffHTTP/1.1 200").is_err());
    assert_eq!(
        read_response("größe".as_bytes()),
        Err("docker ping returned: größe".to_string())
    );
}

#[test]
fn judge_response_reads_the_first_line() {
    assert_eq!(judge_response("HTTP/1.1 200"), Ok(()));
    assert_eq!(
        judge_response("\nHTTP/1.1 200"),
        Err("docker ping returned: ".to_string())
    );
}

#[test]
fn ping_steps_follow_one_another() {
    assert!(matches!(ping_step(SOCKET, &PingEvent::Found), PingAction::Connect));
    assert!(matches!(ping_step(SOCKET, &PingEvent::Connected), PingAction::Write));
    assert!(matches!(ping_step(SOCKET, &PingEvent::Written), PingAction::Read));
}

#[test]
fn every_failure_ends_the_ping() {
    let failures = vec![
        (
            PingEvent::ConnectTimedOut,
            "timed out connecting to docker socket",
        ),
        (
            PingEvent::ConnectFailed("refused".to_string()),
            "cannot connect to docker socket: refused",
        ),
        (
            PingEvent::WriteFailed("broken pipe".to_string()),
            "write to docker socket failed: broken pipe",
        ),
        (
            PingEvent::ReadTimedOut,
            "timed out reading docker ping response",
        ),
        (
            PingEvent::ReadFailed("reset".to_string()),
            "read from docker socket failed: reset",
        ),
    ];
    for (event, reason) in failures {
        assert_eq!(exchange(SOCKET, vec![event]), Err(reason.to_string()));
    }
}

#[test]
fn ping_request_is_plain_http() {
    assert_eq!(
        ping_request().as_bytes(),
        b"GET /_ping HTTP/1.1\r\nHost: docker\r\nConnection: close\r\n\r\n"
    );
}
