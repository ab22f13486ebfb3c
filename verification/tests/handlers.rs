use mobile_cam::app_state::{AppState, ProtoVideoTransform, Role, SessionId, VideoTransform};
use mobile_cam::messages::{
    CloseCause, ControllerCommand, Delivery, ProtoSession, ServerMessage, SessionType,
    StreamerCommand, Target, ViewerCommand,
};
use mobile_cam::server::{controller, streamer, viewer};

fn to(role: Role, index: usize) -> Target {
    Target::To(SessionId::new(role, index))
}

fn plain(target: Target, message: ServerMessage) -> Delivery {
    Delivery { target, message, on_failure: None }
}

fn guarded(target: Target, message: ServerMessage, cause: CloseCause) -> Delivery {
    Delivery { target, message, on_failure: Some(cause) }
}

fn session(id: u64, session_type: SessionType) -> Option<ProtoSession> {
    Some(ProtoSession { id, session_type })
}

/// One streamer (0) with two controllers (0, 1) and two viewers (0 watching, 1 not).
fn setup() -> AppState<&'static str> {
    let mut app = AppState::new();
    app.add_streamer("s0", Some("cam"));
    app.add_controller("c0");
    app.add_controller("c1");
    app.add_viewer("v0", None);
    app.add_viewer("v1", None);
    app.update_viewer_watching(0, Some(0));
    app
}

#[test]
fn viewer_connection_is_announced() {
    let app = setup();
    let out = viewer::handle_connection(1, &app);
    assert_eq!(out.close, None);
    assert_eq!(out.deliveries.len(), 2);
    assert_eq!(out.deliveries[0].target, to(Role::Controller, 0));
    assert_eq!(out.deliveries[1].target, to(Role::Controller, 1));
    match &out.deliveries[0].message {
        ServerMessage::NewViewerSession { session } => {
            assert_eq!(session.id, 1);
            assert_eq!(session.streamer_id, None);
        }
        other => panic!("unexpected {other:?}"),
    }
    assert!(viewer::handle_connection(9, &app).deliveries.is_empty());
}

#[test]
fn viewer_disconnect_drops_it() {
    let app = setup();
    let out = viewer::handle_disconnect(1, &app);
    let drop = ServerMessage::DropSession { session: ProtoSession { id: 1, session_type: SessionType::Viewer } };
    assert_eq!(
        out.deliveries,
        vec![plain(to(Role::Controller, 0), drop.clone()), plain(to(Role::Controller, 1), drop)]
    );
}

#[test]
fn viewer_messages_go_to_streamers() {
    let app = setup();
    let out = viewer::handle_message(0, &app, Some(ViewerCommand::RtcAnswerResponse { streamer_id: 0, answer: "ans".to_string() }));
    assert_eq!(
        out.deliveries,
        vec![plain(to(Role::Streamer, 0), ServerMessage::RtcAnswer { session: session(0, SessionType::Viewer), answer: "ans".to_string() })]
    );
    let out = viewer::handle_message(0, &app, Some(ViewerCommand::RtcAnswerResponse { streamer_id: 5, answer: "a".to_string() }));
    assert!(out.deliveries.is_empty());
    let out = viewer::handle_message(1, &app, Some(ViewerCommand::IceCandidate { candidate: "c".to_string(), session: session(0, SessionType::Streamer) }));
    assert_eq!(
        out.deliveries,
        vec![plain(to(Role::Streamer, 0), ServerMessage::IceCandidate { candidate: "c".to_string(), session: session(1, SessionType::Viewer) })]
    );
    let out = viewer::handle_message(1, &app, Some(ViewerCommand::IceCandidate { candidate: "c".to_string(), session: session(0, SessionType::Controller) }));
    assert!(out.deliveries.is_empty());
    assert_eq!(viewer::handle_message(1, &app, None).close, Some(CloseCause::UndecodableMessage));
}

#[test]
fn streamer_connection_and_disconnection() {
    let mut app = setup();
    let out = streamer::handle_connection(0, &app);
    assert_eq!(out.deliveries.len(), 2);
    let out = streamer::handle_disconnect(0, &mut app);
    let drop = ServerMessage::DropSession { session: ProtoSession { id: 0, session_type: SessionType::Streamer } };
    assert_eq!(
        out.deliveries,
        vec![
            plain(to(Role::Controller, 0), drop.clone()),
            plain(to(Role::Controller, 1), drop),
            plain(to(Role::Viewer, 0), ServerMessage::DisconnectStreamer),
        ]
    );
    assert_eq!(app.get_viewer_watching(0), None);
}

#[test]
fn streamer_reports_reach_viewers_and_controllers() {
    let mut app = setup();
    let t = ProtoVideoTransform { rotation: 90, zoom_bits: 2.0f32.to_bits(), x_bits: 0, y_bits: 0 };
    let out = streamer::handle_message(0, &mut app, Some(StreamerCommand::RequestVideoTransform { video_transform: Some(t) }));
    let update = ServerMessage::UpdateVideoTransform { streamer_id: 0, video_transform: Some(t) };
    assert_eq!(
        out.deliveries,
        vec![
            plain(to(Role::Viewer, 0), update.clone()),
            plain(to(Role::Controller, 0), update.clone()),
            plain(to(Role::Controller, 1), update),
        ]
    );
    assert_eq!(app.get_streamer_video_transform(0), Some(&Some(VideoTransform::from_proto(t))));
    let out = streamer::handle_message(0, &mut app, Some(StreamerCommand::UpdateBatteryLevel { battery_level: 300 }));
    assert_eq!(out.deliveries.len(), 2);
    assert_eq!(app.get_proto_streamer_session(0).unwrap().battery_level, Some(44));
    let out = streamer::handle_message(3, &mut app, Some(StreamerCommand::UpdateBatteryLevel { battery_level: 1 }));
    assert_eq!(out.close, Some(CloseCause::NoStreamerForBatteryLevel));
    let out = streamer::handle_message(3, &mut app, Some(StreamerCommand::RequestVideoTransform { video_transform: None }));
    assert_eq!(out.close, Some(CloseCause::NoStreamerForVideoTransform));
    let out = streamer::handle_message(0, &mut app, Some(StreamerCommand::RequestZoom { zoom_bits: 7 }));
    assert_eq!(out.deliveries[1], plain(to(Role::Controller, 1), ServerMessage::UpdateZoom { streamer_id: 0, zoom_bits: 7 }));
}

#[test]
fn streamer_offers_go_to_the_named_session() {
    let mut app = setup();
    let t = VideoTransform { rotation: 3, zoom_bits: 1, x_bits: 2, y_bits: 3 };
    app.set_streamer_video_transform(0, Some(t));
    let out = streamer::handle_message(0, &mut app, Some(StreamerCommand::RtcOfferResponse { offer: "o".to_string(), session: session(1, SessionType::Controller) }));
    assert_eq!(
        out.deliveries,
        vec![plain(to(Role::Controller, 1), ServerMessage::RequestRtcAnswer { offer: "o".to_string(), streamer_id: 0, video_transform: Some(t.to_proto()) })]
    );
    let out = streamer::handle_message(0, &mut app, Some(StreamerCommand::RtcOfferResponse { offer: "o".to_string(), session: session(4, SessionType::Viewer) }));
    assert!(out.deliveries.is_empty());
    assert_eq!(out.close, None);
    let out = streamer::handle_message(2, &mut app, Some(StreamerCommand::RtcOfferResponse { offer: "o".to_string(), session: None }));
    assert_eq!(out.close, Some(CloseCause::NoStreamerForRtcAnswer));
    let out = streamer::handle_message(0, &mut app, Some(StreamerCommand::IceCandidate { candidate: "x".to_string(), session: session(1, SessionType::Viewer) }));
    assert_eq!(
        out.deliveries,
        vec![plain(to(Role::Viewer, 1), ServerMessage::IceCandidate { candidate: "x".to_string(), session: session(0, SessionType::Streamer) })]
    );
    assert_eq!(streamer::handle_message(0, &mut app, None).close, Some(CloseCause::UndecodableMessage));
}

#[test]
fn controller_greeting_and_lists() {
    let mut app = setup();
    let out = controller::handle_connection(1, &app);
    assert_eq!(out.deliveries.len(), 1);
    assert_eq!(out.deliveries[0].target, Target::Back);
    assert_eq!(out.deliveries[0].on_failure, Some(CloseCause::ReadyNotSent));
    match &out.deliveries[0].message {
        ServerMessage::Ready { id, streamers, viewer_count } => {
            assert_eq!((*id, streamers.len(), *viewer_count), (1, 1, 2));
            assert_eq!(streamers[0].name.as_deref(), Some("cam"));
        }
        other => panic!("unexpected {other:?}"),
    }
    let out = controller::handle_message(0, &mut app, Some(ControllerCommand::ListViewers { streamer_id: Some(0) }));
    match &out.deliveries[0].message {
        ServerMessage::ListViewersResponse { viewers } => assert_eq!(viewers.len(), 1),
        other => panic!("unexpected {other:?}"),
    }
    let out = controller::handle_message(0, &mut app, Some(ControllerCommand::ListAllViewers));
    assert_eq!(out.deliveries[0].on_failure, Some(CloseCause::AllViewersListNotSent));
    let out = controller::handle_message(0, &mut app, Some(ControllerCommand::ListStreamers));
    assert_eq!(out.deliveries[0].on_failure, Some(CloseCause::StreamerListNotSent));
}

#[test]
fn controller_requests_go_to_streamers() {
    let mut app = setup();
    let out = controller::handle_message(1, &mut app, Some(ControllerCommand::RequestRtcOffer { streamer_id: 0 }));
    assert_eq!(
        out.deliveries,
        vec![guarded(to(Role::Streamer, 0), ServerMessage::CreateRtcOffer { session: session(1, SessionType::Controller) }, CloseCause::RtcOfferRequestNotSent)]
    );
    let out = controller::handle_message(1, &mut app, Some(ControllerCommand::RequestChangeQuality { streamer_id: 0, quality: 2 }));
    assert_eq!(out.deliveries, vec![guarded(to(Role::Streamer, 0), ServerMessage::ChangeQuality { quality: 2 }, CloseCause::ChangeQualityNotSent)]);
    let out = controller::handle_message(1, &mut app, Some(ControllerCommand::RequestZoom { streamer_id: 9, zoom_bits: 1 }));
    assert!(out.deliveries.is_empty());
    let out = controller::handle_message(1, &mut app, Some(ControllerCommand::IceCandidate { candidate: "c".to_string(), session: session(0, SessionType::Streamer) }));
    assert_eq!(out.deliveries[0].on_failure, Some(CloseCause::IceCandidateNotSent));
    assert_eq!(controller::handle_message(1, &mut app, Some(ControllerCommand::Unsupported)).close, Some(CloseCause::UnsupportedCommand));
    assert_eq!(controller::handle_message(1, &mut app, None).close, Some(CloseCause::InvalidMessageFormat));
}

#[test]
fn controller_changes_what_a_viewer_watches() {
    let mut app = setup();
    let out = controller::handle_message(0, &mut app, Some(ControllerCommand::UpdateWatching { viewer_id: 1, streamer_id: Some(0) }));
    assert_eq!(
        out.deliveries,
        vec![guarded(to(Role::Streamer, 0), ServerMessage::CreateRtcOffer { session: session(1, SessionType::Viewer) }, CloseCause::UpdatedViewerNotSent)]
    );
    assert_eq!(app.get_viewer_watching(1), Some(0));
    let out = controller::handle_message(0, &mut app, Some(ControllerCommand::UpdateWatching { viewer_id: 0, streamer_id: None }));
    assert_eq!(
        out.deliveries,
        vec![guarded(to(Role::Viewer, 0), ServerMessage::DisconnectStreamer, CloseCause::ViewerDisconnectNotSent)]
    );
    assert_eq!(app.get_viewer_watching(0), None);
    let out = controller::handle_message(0, &mut app, Some(ControllerCommand::UpdateWatching { viewer_id: 7, streamer_id: None }));
    assert!(out.deliveries.is_empty());
}

#[test]
fn close_causes_carry_code_and_description() {
    assert_eq!(CloseCause::UndecodableMessage.code(), 1003);
    assert_eq!(CloseCause::UndecodableMessage.description(), "Failed to decode message");
    assert_eq!(CloseCause::InvalidMessageFormat.code(), 1003);
    assert_eq!(CloseCause::InvalidMessageFormat.description(), "Invalid message format");
    assert_eq!(CloseCause::UnsupportedCommand.code(), 1003);
    assert_eq!(CloseCause::UnsupportedCommand.description(), "Unsupported command");
    assert_eq!(CloseCause::NoStreamerForBatteryLevel.code(), 1011);
    assert_eq!(
        CloseCause::NoStreamerForBatteryLevel.description(),
        "Failed to find streamer session for battery level update"
    );
    assert_eq!(CloseCause::ViewerDisconnectNotSent.code(), 1011);
    assert_eq!(
        CloseCause::ViewerDisconnectNotSent.description(),
        "Failed to request viewer to disconnect from streamer"
    );
}
