use restaapp_printer::api::{
    api_url, connection_result_for_status, connection_result_from_reply, job_url,
    mark_job_body_at, parse_u64, poll_interval, pull_refused, stream_refused, stream_url,
    stream_user_agent, user_agent, ConnectionReply, SseFramer, PULL_JOBS_PATH,
    TEST_CONNECTION_PATH,
};

#[test]
fn endpoints() {
    assert_eq!(
        api_url("https://restapp.allsender.tech/", TEST_CONNECTION_PATH),
        "https://restapp.allsender.tech/api/test-connection"
    );
    assert_eq!(
        api_url("https://h", PULL_JOBS_PATH),
        "https://h/api/print-jobs/pull-multiple"
    );
    assert_eq!(stream_url("https://h//", "  KEY1 \n"), "https://h/api/print-stream/KEY1");
    assert_eq!(job_url("https://h", 15), "https://h/api/print-jobs/15");
    assert_eq!(user_agent(), "RestaAPP-Printer/3.1.2");
    assert_eq!(stream_user_agent(), "RestaAPP-Printer/3.1.2/sse");
}

#[test]
fn connection_answers_by_status() {
    let refused = connection_result_for_status(401).unwrap();
    assert!(!refused.ok);
    assert_eq!(refused.message, "La clave no pudo ser validada");
    let down = connection_result_for_status(503).unwrap();
    assert!(!down.ok);
    assert_eq!(down.message, "La conexión no está disponible temporalmente");
    assert!(connection_result_for_status(200).is_none());
}

fn reply() -> ConnectionReply {
    ConnectionReply {
        status: None,
        message: None,
        recommended_poll_ms: Some(4000),
        recommended_idle_poll_ms: Some(10000),
        branch_name: Some("Sucursal Principal".into()),
        restaurant_name: Some("Ciro Kebab".into()),
        logo_url: None,
        locale: None,
        language: Some("it".into()),
    }
}

#[test]
fn connection_answer_from_body() {
    let c = connection_result_from_reply(reply());
    assert!(c.ok);
    assert_eq!(c.message, "Connection established");
    assert_eq!(c.locale.as_deref(), Some("it"));
    assert_eq!(c.branch_name.as_deref(), Some("Sucursal Principal"));
    let mut r = reply();
    r.status = Some("error".into());
    r.message = Some("Invalid".into());
    r.locale = Some(Some("fr".into()));
    let c = connection_result_from_reply(r);
    assert!(!c.ok);
    assert_eq!(c.message, "Invalid");
    assert_eq!(c.locale.as_deref(), Some("fr"));
    let mut r = reply();
    r.locale = Some(None);
    assert_eq!(connection_result_from_reply(r).locale, None);
}

#[test]
fn refusals() {
    assert!(pull_refused(401));
    assert!(!pull_refused(403));
    assert!(stream_refused(401));
    assert!(stream_refused(403));
    assert!(!stream_refused(500));
}

#[test]
fn numbers_read_like_from_str() {
    for text in ["0", "8000", "+12", "18446744073709551615", "", "+", "-1", " 1", "1 ", "12a", "18446744073709551616", "99999999999999999999"] {
        assert_eq!(parse_u64(text), text.parse::<u64>().ok(), "{text:?}");
    }
}

#[test]
fn poll_hint_or_idle() {
    assert_eq!(poll_interval(Some("8000"), 10_000), 8_000);
    assert_eq!(poll_interval(Some("soon"), 10_000), 10_000);
    assert_eq!(poll_interval(None, 10_000), 10_000);
}

#[test]
fn job_report_bodies() {
    let done = mark_job_body_at("done", "t".into(), Some("EPSON"), None);
    assert_eq!(done.status, "done");
    assert_eq!(done.printed_at.as_deref(), Some("t"));
    assert_eq!(done.printer.as_deref(), Some("EPSON"));
    let failed = mark_job_body_at("failed", "t".into(), None, Some("x"));
    assert!(failed.printed_at.is_none());
    assert_eq!(failed.error.as_deref(), Some("x"));
}

#[test]
fn stream_print_event_detected_across_chunks() {
    let mut f = SseFramer::new();
    assert!(!f.feed(b": heartbeat\n\nid: 1\nevent: pr"));
    assert!(f.feed(b"int\ndata: {}\n\n"));
}

#[test]
fn stream_other_events_ignored() {
    let mut f = SseFramer::new();
    assert!(!f.feed(b"event: ping\ndata: x\n\n: heartbeat\n\n"));
    assert!(!f.feed(b"event: print"));
    assert!(f.feed(b"\r\n\n"));
}

#[test]
fn stream_event_line_is_trimmed() {
    let mut f = SseFramer::new();
    assert!(f.feed(b"  event: print  \r\n\n"));
    let mut g = SseFramer::new();
    assert!(!g.feed(b"event: printing\n\n"));
}

#[test]
fn stream_buffer_is_bounded() {
    let mut f = SseFramer::new();
    let junk = vec![b'x'; 70_000];
    assert!(!f.feed(&junk));
    // the oversized partial event was dropped
    assert!(!f.feed(b"\n\n"));
    assert!(f.feed(b"event: print\n\n"));
}
