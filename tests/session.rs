use std::cell::RefCell;
use std::rc::Rc;

use xray_lite::{
    header_from_env_value, AwsNamespace, Client, Context, CustomNamespace, Header,
    InfallibleClient, InfallibleContext, Seconds, SegmentId, Subsegment, SubsegmentContext,
    SubsegmentSession, TraceId, XRayError,
};

#[derive(Debug, Clone, PartialEq)]
struct Sent {
    id: String,
    trace_id: String,
    name: String,
    in_progress: bool,
    start: u64,
    end: Option<u64>,
    namespace: Option<String>,
    request_id: Option<String>,
    status: Option<u16>,
}

#[derive(Clone, Debug, Default)]
struct RecordingClient {
    fail: bool,
    sent: Rc<RefCell<Vec<Sent>>>,
    attempts: Rc<RefCell<usize>>,
}

impl Client for RecordingClient {
    fn send(&self, record: &Subsegment) -> Result<(), XRayError> {
        *self.attempts.borrow_mut() += 1;
        if self.fail {
            return Err(XRayError::BadConfig("unreachable collector".to_string()));
        }
        self.sent.borrow_mut().push(Sent {
            id: record.id.as_str().to_string(),
            trace_id: record.trace_id.as_str().to_string(),
            name: record.name.clone(),
            in_progress: record.in_progress,
            start: record.start_time.micros,
            end: record.end_time.map(|t| t.micros),
            namespace: record.namespace.clone(),
            request_id: record.aws.as_ref().and_then(|a| a.request_id.clone()),
            status: record.http.as_ref().and_then(|h| h.response).and_then(|r| r.status),
        });
        Ok(())
    }
}

fn header() -> Header {
    Header::parse("Root=1-aaaaaaaa-bbbbbbbbbbbbbbbbbbbbbbbb;Parent=0123456789abcdef;Sampled=1")
        .unwrap()
}

#[test]
fn failed_send_gives_inert_session() {
    let client = RecordingClient { fail: true, ..Default::default() };
    let mut session = SubsegmentSession::new(
        client.clone(),
        &header(),
        AwsNamespace::new("S3", "GetObject"),
        "",
        SegmentId::Rendered("1111222233334444".into()),
        Seconds::from_micros(10),
    );
    assert!(session.x_amzn_trace_id().is_none());
    assert!(session.namespace_mut().is_none());
    session.release(Seconds::from_micros(20));
    assert_eq!(*client.attempts.borrow(), 1);
    assert!(client.sent.borrow().is_empty());
}

#[test]
fn successful_session_sends_two_records() {
    let client = RecordingClient::default();
    let mut session = SubsegmentSession::new(
        client.clone(),
        &header(),
        AwsNamespace::new("S3", "GetObject"),
        "",
        SegmentId::Rendered("1111222233334444".into()),
        Seconds::from_micros(10),
    );
    assert_eq!(
        session.x_amzn_trace_id().as_deref(),
        Some("Root=1-aaaaaaaa-bbbbbbbbbbbbbbbbbbbbbbbb;Parent=1111222233334444;Sampled=1")
    );
    session.namespace_mut().unwrap().response_status(200).request_id("req-1");
    session.release(Seconds::from_micros(25));
    let sent = client.sent.borrow();
    assert_eq!(sent.len(), 2);
    assert!(sent[0].in_progress);
    assert_eq!(sent[0].end, None);
    assert_eq!(sent[0].status, None);
    assert!(!sent[1].in_progress);
    assert_eq!(sent[1].end, Some(25));
    assert!(sent[1].end.unwrap() >= sent[1].start);
    assert_eq!(sent[0].id, sent[1].id);
    assert_eq!(sent[0].id, "1111222233334444");
    assert_eq!(sent[0].trace_id, "1-aaaaaaaa-bbbbbbbbbbbbbbbbbbbbbbbb");
    assert_eq!(sent[1].trace_id, sent[0].trace_id);
    assert_eq!(sent[1].name, "S3");
    assert_eq!(sent[1].namespace.as_deref(), Some("aws"));
    assert_eq!(sent[1].request_id.as_deref(), Some("req-1"));
    assert_eq!(sent[1].status, Some(200));
}

#[test]
fn opening_and_close_records() {
    let namespace = CustomNamespace::new("work");
    let opening = SubsegmentSession::<RecordingClient, CustomNamespace>::opening(
        &header(),
        &namespace,
        "app.",
        SegmentId::Rendered("abcd".into()),
        Seconds::from_micros(5),
    );
    assert_eq!(opening.name, "app.work");
    assert_eq!(opening.parent_id, Some(SegmentId::Rendered("0123456789abcdef".into())));
    assert!(opening.in_progress);
    let session = SubsegmentSession::from_send_outcome(
        RecordingClient::default(),
        &header(),
        opening,
        namespace,
        true,
    );
    let (_, closing) = session.close(Seconds::from_micros(9)).unwrap();
    assert!(!closing.in_progress);
    assert_eq!(closing.end_time, Some(Seconds::from_micros(9)));
    let failed = SubsegmentSession::<RecordingClient, CustomNamespace>::failed();
    assert!(failed.close(Seconds::from_micros(9)).is_none());
}

#[test]
fn context_enters_under_its_header_with_prefix() {
    let client = RecordingClient::default();
    let context = SubsegmentContext::new(client.clone(), header()).with_name_prefix("readme.");
    let session = context.enter_subsegment(
        CustomNamespace::new("do_something"),
        SegmentId::Rendered("feedfacefeedface".into()),
        Seconds::from_micros(1),
    );
    assert_eq!(
        session.x_amzn_trace_id().as_deref(),
        Some("Root=1-aaaaaaaa-bbbbbbbbbbbbbbbbbbbbbbbb;Parent=feedfacefeedface;Sampled=1")
    );
    session.release(Seconds::from_micros(2));
    let sent = client.sent.borrow();
    assert_eq!(sent.len(), 2);
    assert_eq!(sent[0].name, "readme.do_something");
}

#[test]
fn context_from_env_value() {
    let missing = SubsegmentContext::from_env_value(RecordingClient::default(), None);
    assert!(matches!(missing, Err(XRayError::MissingEnvVar("_X_AMZN_TRACE_ID"))));
    let bad = SubsegmentContext::from_env_value(RecordingClient::default(), Some("Root=R;junk"));
    match bad {
        Err(XRayError::BadConfig(m)) => assert_eq!(
            m,
            "invalid X-Ray trace ID header value: invalid key=value: no `=` found in `junk`"
        ),
        other => panic!("unexpected {:?}", other.map(|_| ())),
    }
    let good = header_from_env_value(Some("Root=R")).unwrap();
    assert_eq!(good, Header::new(TraceId::Rendered("R".into())));
}

#[test]
fn inert_context_and_client() {
    let context: InfallibleContext<SubsegmentContext<RecordingClient>> =
        InfallibleContext::new(Err::<SubsegmentContext<RecordingClient>, ()>(()));
    let session = context.enter_subsegment(
        CustomNamespace::new("x"),
        SegmentId::Rendered("01".into()),
        Seconds::from_micros(0),
    );
    assert!(session.x_amzn_trace_id().is_none());

    let inert: InfallibleClient<RecordingClient> = InfallibleClient::new(Err::<RecordingClient, ()>(()));
    assert!(inert.send(&Subsegment::default()).is_ok());

    let inner = RecordingClient { fail: true, ..Default::default() };
    let op = InfallibleClient::new(Ok::<RecordingClient, ()>(inner.clone()));
    assert!(op.send(&Subsegment::default()).is_err());
    assert_eq!(*inner.attempts.borrow(), 1);

    let live = InfallibleContext::new(Ok::<_, ()>(SubsegmentContext::new(
        RecordingClient::default(),
        header(),
    )));
    let session = live.enter_subsegment(
        CustomNamespace::new("y"),
        SegmentId::Rendered("02".into()),
        Seconds::from_micros(0),
    );
    assert!(session.x_amzn_trace_id().is_some());
}
