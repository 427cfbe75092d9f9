use api::ws::{
    connection_step, stream_step, ClientFrame, ConnectionAction, ConnectionEvent, FrameAction,
    Inbound, StreamEvent, Subscriptions, WsSubject,
};

#[test]
fn subscribing_twice_starts_one_task() {
    let mut subs = Subscriptions::new();
    assert_eq!(
        subs.apply(ClientFrame::Subscribe(WsSubject::MempoolDelta)),
        FrameAction::Spawn(WsSubject::MempoolDelta)
    );
    assert_eq!(subs.apply(ClientFrame::Subscribe(WsSubject::MempoolDelta)), FrameAction::Ignore);
    assert_eq!(subs.subjects, vec![WsSubject::MempoolDelta]);
}

#[test]
fn unsubscribing_stops_the_task_once() {
    let mut subs = Subscriptions::new();
    subs.apply(ClientFrame::Subscribe(WsSubject::ChainTip));
    subs.apply(ClientFrame::Subscribe(WsSubject::ClusterDelta));
    assert_eq!(
        subs.apply(ClientFrame::Unsubscribe(WsSubject::ChainTip)),
        FrameAction::Abort(WsSubject::ChainTip)
    );
    assert_eq!(subs.apply(ClientFrame::Unsubscribe(WsSubject::ChainTip)), FrameAction::Ignore);
    assert_eq!(subs.subjects, vec![WsSubject::ClusterDelta]);
}

#[test]
fn unsubscribing_from_an_unknown_subject_changes_nothing() {
    let mut subs = Subscriptions::new();
    assert_eq!(subs.apply(ClientFrame::Unsubscribe(WsSubject::MempoolStats)), FrameAction::Ignore);
    assert!(subs.subjects.is_empty());
}

#[test]
fn the_connection_loop_sends_applies_pings_and_closes() {
    assert!(matches!(
        connection_step(ConnectionEvent::Outbound(Some("x".to_string()))),
        ConnectionAction::Send(t) if t == "x"
    ));
    assert!(matches!(connection_step(ConnectionEvent::Outbound(None)), ConnectionAction::Close));
    assert!(matches!(
        connection_step(ConnectionEvent::Inbound(Inbound::Text("{}".to_string()))),
        ConnectionAction::HandleFrame(t) if t == "{}"
    ));
    assert!(matches!(connection_step(ConnectionEvent::Inbound(Inbound::Other)), ConnectionAction::Continue));
    assert!(matches!(connection_step(ConnectionEvent::Inbound(Inbound::Close)), ConnectionAction::Close));
    assert!(matches!(connection_step(ConnectionEvent::Inbound(Inbound::Failed)), ConnectionAction::Close));
    assert!(matches!(connection_step(ConnectionEvent::Inbound(Inbound::Gone)), ConnectionAction::Close));
    assert!(matches!(connection_step(ConnectionEvent::PingDue), ConnectionAction::Ping));
}

#[test]
fn a_single_stream_skips_what_it_cannot_serialize_and_ends_with_the_stream() {
    assert!(matches!(
        stream_step(StreamEvent::Item(Some(Ok("e".to_string())))),
        ConnectionAction::Send(t) if t == "e"
    ));
    assert!(matches!(stream_step(StreamEvent::Item(Some(Err(())))), ConnectionAction::Continue));
    assert!(matches!(stream_step(StreamEvent::Item(None)), ConnectionAction::Close));
    assert!(matches!(
        stream_step(StreamEvent::Inbound(Inbound::Text("hi".to_string()))),
        ConnectionAction::Continue
    ));
    assert!(matches!(stream_step(StreamEvent::Inbound(Inbound::Gone)), ConnectionAction::Close));
    assert!(matches!(stream_step(StreamEvent::PingDue), ConnectionAction::Ping));
}
