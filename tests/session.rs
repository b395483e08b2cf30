use clipcast::codec::{encode, Message};
use clipcast::peer::{Client, ClientCmd, Reconnect, Server, ServerCmd};
use clipcast::session::{Action, EndReason, Event, Role, Session, SessionState, TimedEvent, Timing};

fn initiator(now: u64) -> Session {
    Session::new(Role::Initiator, false, Timing::standard(), now)
}

fn responder(now: u64) -> Session {
    Session::new(Role::Responder, true, Timing::standard(), now)
}

fn read(s: &str) -> Event {
    Event::ClipboardRead(Some(s.to_string()))
}

fn line(s: &str) -> Event {
    Event::Line(s.to_string())
}

fn sent(a: &Action) -> Option<String> {
    match a {
        Action::Send(m) => Some(encode(m)),
        _ => None,
    }
}

fn is_idle(a: &Action) -> bool {
    matches!(a, Action::Idle)
}

fn ended(a: &Action) -> Option<EndReason> {
    match a {
        Action::End(r) => Some(*r),
        _ => None,
    }
}

#[test]
fn reads_a_a_b_send_two_clips() {
    let mut s = initiator(0);
    let mut out = Vec::new();
    for (t, text) in [(500u64, "a"), (1000, "a"), (1500, "b")] {
        if let Some(m) = sent(&s.step(t, &read(text))) {
            out.push(m);
        }
    }
    assert_eq!(
        out,
        vec![
            "{\"type\":\"clip\",\"clip\":\"a\"}\n".to_string(),
            "{\"type\":\"clip\",\"clip\":\"b\"}\n".to_string()
        ]
    );
}

#[test]
fn empty_first_read_sends_nothing() {
    let mut s = responder(0);
    assert!(is_idle(&s.step(10, &read(""))));
    assert_eq!(s.last_clipboard(), "");
}

#[test]
fn failed_read_is_not_fatal() {
    let mut s = initiator(0);
    assert!(is_idle(&s.step(500, &Event::ClipboardRead(None))));
    assert_eq!(s.state(), SessionState::Active);
    assert!(sent(&s.step(1000, &read("x"))).is_some());
}

#[test]
fn clip_then_eof_writes_once_and_closes() {
    let mut s = initiator(0);
    let mut writes = Vec::new();
    match s.step(100, &line("{\"type\":\"clip\",\"clip\":\"x\"}")) {
        Action::WriteClipboard(c) => writes.push(c),
        _ => panic!("expected a clipboard write"),
    }
    assert!(is_idle(&s.step(110, &Event::ClipboardWritten(true))));
    assert_eq!(ended(&s.step(120, &Event::InboundClosed)), Some(EndReason::ConnectionClosed));
    assert_eq!(writes, vec!["x".to_string()]);
    assert_eq!(s.state(), SessionState::Ended(EndReason::ConnectionClosed));
}

#[test]
fn received_clip_is_not_sent_back() {
    let mut s = initiator(0);
    let _ = s.step(100, &line("{\"type\":\"clip\",\"clip\":\"x\"}"));
    let _ = s.step(110, &Event::ClipboardWritten(true));
    assert!(is_idle(&s.step(500, &read("x"))));
}

#[test]
fn bogus_type_ends_with_protocol_error_and_sends_nothing_more() {
    let mut s = initiator(0);
    assert_eq!(ended(&s.step(100, &line("{\"type\":\"bogus\"}"))), Some(EndReason::ProtocolError));
    assert_eq!(ended(&s.step(200, &read("new"))), Some(EndReason::ProtocolError));
    assert_eq!(ended(&s.step(300, &Event::PingTick)), Some(EndReason::ProtocolError));
}

#[test]
fn silence_past_pong_timeout_ends_with_liveness_timeout() {
    let mut s = initiator(0);
    let mut t = 0u64;
    let mut last = Action::Idle;
    while t <= 10_500 {
        last = s.step(t, &Event::ClipboardRead(None));
        if ended(&last).is_some() {
            break;
        }
        t += 500;
    }
    assert_eq!(t, 10_000);
    assert_eq!(ended(&last), Some(EndReason::LivenessTimeout));
}

#[test]
fn traffic_without_pong_does_not_keep_session_alive() {
    let mut s = initiator(0);
    assert!(sent(&s.step(3000, &Event::PingTick)).is_some());
    assert!(sent(&s.step(4000, &line("{\"type\":\"ping\"}"))).is_some());
    assert!(is_idle(&s.step(5000, &line("{\"type\":\"ack\"}"))));
    assert_eq!(ended(&s.step(10_000, &line("{\"type\":\"pong\"}"))), Some(EndReason::LivenessTimeout));
}

#[test]
fn pong_moves_the_deadline() {
    let mut s = initiator(0);
    assert!(is_idle(&s.step(9_000, &line("{\"type\":\"pong\"}"))));
    assert_eq!(s.last_liveness_at(), 9_000);
    assert!(is_idle(&s.step(18_999, &Event::Tick)));
    assert_eq!(ended(&s.step(19_000, &Event::Tick)), Some(EndReason::LivenessTimeout));
}

#[test]
fn responder_has_no_liveness_deadline_and_does_not_ping() {
    let mut s = responder(0);
    assert!(is_idle(&s.step(100_000, &Event::PingTick)));
    assert_eq!(s.state(), SessionState::Active);
    assert!(is_idle(&s.step(200_000, &line("{\"type\":\"pong\"}"))));
}

#[test]
fn ping_is_answered_with_pong() {
    let mut s = responder(0);
    assert_eq!(sent(&s.step(1, &line("{\"type\":\"ping\"}"))), Some("{\"type\":\"pong\"}\n".to_string()));
    let mut c = initiator(0);
    assert_eq!(sent(&c.step(1, &line("{\"type\":\"ping\"}\n"))), Some("{\"type\":\"pong\"}\n".to_string()));
}

#[test]
fn initiator_ping_tick_sends_ping() {
    let mut s = initiator(0);
    assert_eq!(sent(&s.step(3000, &Event::PingTick)), Some("{\"type\":\"ping\"}\n".to_string()));
}

#[test]
fn responder_acknowledges_applied_clip() {
    let mut s = responder(0);
    match s.step(5, &line("{\"type\":\"clip\",\"clip\":\"hello\"}")) {
        Action::WriteClipboard(c) => assert_eq!(c, "hello"),
        _ => panic!("expected a clipboard write"),
    }
    assert_eq!(sent(&s.step(6, &Event::ClipboardWritten(true))), Some("{\"type\":\"ack\"}\n".to_string()));
}

#[test]
fn responder_without_acknowledgement_stays_quiet() {
    let mut s = Session::new(Role::Responder, false, Timing::standard(), 0);
    let _ = s.step(5, &line("{\"type\":\"clip\",\"clip\":\"hello\"}"));
    assert!(is_idle(&s.step(6, &Event::ClipboardWritten(true))));
}

#[test]
fn failed_clipboard_write_is_fatal() {
    let mut s = responder(0);
    let _ = s.step(5, &line("{\"type\":\"clip\",\"clip\":\"hello\"}"));
    assert_eq!(ended(&s.step(6, &Event::ClipboardWritten(false))), Some(EndReason::ProviderFailure));
}

#[test]
fn send_timeout_is_fatal() {
    let mut s = initiator(0);
    assert!(is_idle(&s.step(1, &Event::SendCompleted(true))));
    assert_eq!(ended(&s.step(2, &Event::SendCompleted(false))), Some(EndReason::SendTimeout));
}

#[test]
fn batch_keeps_event_order() {
    let mut s = initiator(0);
    let events = vec![
        TimedEvent { at: 100, event: read("one") },
        TimedEvent { at: 200, event: line("{\"type\":\"ping\"}") },
        TimedEvent { at: 300, event: Event::PingTick },
        TimedEvent { at: 400, event: read("two") },
        TimedEvent { at: 500, event: read("two") },
    ];
    let acts = s.handle_all(&events);
    assert_eq!(acts.len(), events.len());
    let out: Vec<String> = acts.iter().filter_map(sent).collect();
    assert_eq!(
        out,
        vec![
            "{\"type\":\"clip\",\"clip\":\"one\"}\n".to_string(),
            "{\"type\":\"pong\"}\n".to_string(),
            "{\"type\":\"ping\"}\n".to_string(),
            "{\"type\":\"clip\",\"clip\":\"two\"}\n".to_string(),
        ]
    );
    assert!(is_idle(&acts[4]));
}

#[test]
fn reconnect_starts_fresh_after_one_backoff() {
    let client = Client::new(ClientCmd {
        host: "h".to_string(),
        ssh_args: String::new(),
        write_clipboard_cmd: "pbcopy".to_string(),
        read_clipboard_cmd: "pbpaste".to_string(),
        remote_server_cmd: "clipcast".to_string(),
        remote_write_clipboard_cmd: "xclip -selection clipboard".to_string(),
        remote_read_clipboard_cmd: "xclip -selection clipboard -o".to_string(),
    });
    let mut sup = Reconnect::new(client.timing, 0);
    assert_eq!(sup.wait(0), 0);
    let mut s = sup.connect(&client, 0).unwrap();
    assert!(sup.connect(&client, 1).is_none());
    assert!(sent(&s.step(500, &read("seen"))).is_some());
    let reason = ended(&s.step(600, &Event::InboundClosed)).unwrap();
    sup.session_ended(reason, 600);
    assert_eq!(sup.wait(600), 1000);
    assert_eq!(sup.wait(1100), 500);
    assert!(sup.connect(&client, 1599).is_none());
    let mut next = sup.connect(&client, 1600).unwrap();
    assert_eq!(next.last_clipboard(), "");
    assert_eq!(next.last_liveness_at(), 1600);
    assert_eq!(next.state(), SessionState::Active);
    assert_eq!(sent(&next.step(2000, &read("seen"))), Some("{\"type\":\"clip\",\"clip\":\"seen\"}\n".to_string()));
}

#[test]
fn standard_timing() {
    let t = Timing::standard();
    assert_eq!(t.poll_interval_ms, 500);
    assert_eq!(t.ping_interval_ms, 3000);
    assert_eq!(t.pong_timeout_ms, 10_000);
    assert_eq!(t.send_timeout_ms, 5000);
    assert_eq!(t.backoff_ms, 1000);
}

#[test]
fn server_session_is_a_responder() {
    let server = Server::new(ServerCmd {
        write_clipboard_cmd: "xclip -selection clipboard".to_string(),
        read_clipboard_cmd: "xclip -selection clipboard -o".to_string(),
    });
    let s = server.start_session(7);
    assert_eq!(s.role(), Role::Responder);
    assert_eq!(s.last_liveness_at(), 7);
    assert_eq!(server.cmd.read_clipboard_cmd, "xclip -selection clipboard -o");
}

#[test]
fn reconnect_follows_every_kind_of_end() {
    for reason in [
        EndReason::ConnectionClosed,
        EndReason::ProtocolError,
        EndReason::SendTimeout,
        EndReason::LivenessTimeout,
        EndReason::ProviderFailure,
    ] {
        let mut sup = Reconnect::new(Timing::standard(), 0);
        let client = Client::new(ClientCmd {
            host: "h".to_string(),
            ssh_args: String::new(),
            write_clipboard_cmd: "w".to_string(),
            read_clipboard_cmd: "r".to_string(),
            remote_server_cmd: "clipcast".to_string(),
            remote_write_clipboard_cmd: "w".to_string(),
            remote_read_clipboard_cmd: "r".to_string(),
        });
        assert!(sup.connect(&client, 5).is_some());
        sup.session_ended(reason, 10);
        assert_eq!(sup.wait(10), 1000);
        assert!(sup.connect(&client, 1010).is_some());
    }
}

#[test]
fn reconnect_deadline_saturates() {
    let mut sup = Reconnect::new(Timing::standard(), 0);
    sup.session_ended(EndReason::ConnectionClosed, u64::MAX - 10);
    assert_eq!(sup.wait(u64::MAX - 10), 10);
}
