use mobile_cam::app_state::{AppState, Role, SessionId};
use mobile_cam::server::{close_replies, connect_replies, message_handler, Reply, Warning};

fn send(role: Role, index: usize, text: &str) -> Reply {
    Reply::Send { to: SessionId::new(role, index), text: text.to_string() }
}

fn setup() -> (AppState<&'static str>, SessionId, SessionId, SessionId) {
    let mut app = AppState::new();
    let s = app.add_streamer("s0", None);
    let v = app.add_viewer("v0", None);
    let c = app.add_controller("c0");
    (app, s, v, c)
}

#[test]
fn streamers_list_goes_back() {
    let (mut app, _, v, _) = setup();
    app.add_streamer("s1", None);
    assert_eq!(message_handler(&app, v, "b"), vec![Reply::SendBack { text: "c:%0,1".to_string() }]);
}

#[test]
fn offer_request_goes_to_the_watched_streamer() {
    let (mut app, s, v, c) = setup();
    assert_eq!(message_handler(&app, v, "d"), vec![Reply::Warn { warning: Warning::NotWatching }]);
    app.update_viewer_watching(v.index(), Some(s.index()));
    assert_eq!(message_handler(&app, v, "d"), vec![send(Role::Streamer, 0, "e:0")]);
    assert_eq!(message_handler(&app, c, "d"), vec![Reply::Warn { warning: Warning::NotAViewer }]);
    assert_eq!(
        message_handler(&app, SessionId::new(Role::Viewer, 5), "d"),
        vec![Reply::Warn { warning: Warning::NotAViewer }]
    );
    app.remove_session(s);
    assert_eq!(message_handler(&app, v, "d"), vec![Reply::Warn { warning: Warning::NotWatching }]);
}

#[test]
fn bodies_are_readdressed_from_the_sender() {
    let (app, s, v, _) = setup();
    assert_eq!(message_handler(&app, s, "f:0:#{\"sdp\":1}"), vec![send(Role::Viewer, 0, "f:0:#{\"sdp\":1}")]);
    assert_eq!(message_handler(&app, s, "g:0:#cand"), vec![send(Role::Viewer, 0, "g:0:#cand")]);
    assert_eq!(message_handler(&app, v, "h:0:#cand"), vec![send(Role::Streamer, 0, "h:0:#cand")]);
    assert_eq!(message_handler(&app, s, "f:3:#x"), vec![Reply::Warn { warning: Warning::OfferToNoOne }]);
    assert_eq!(message_handler(&app, s, "g:3:#x"), vec![Reply::Warn { warning: Warning::CandidateToNoOne }]);
    assert_eq!(message_handler(&app, v, "h:3:#x"), vec![Reply::Warn { warning: Warning::CandidateToNoOne }]);
}

#[test]
fn sender_id_replaces_the_target_id() {
    let mut app: AppState<&str> = AppState::new();
    app.add_streamer("s0", None);
    let s1 = app.add_streamer("s1", None);
    app.add_viewer("v0", None);
    assert_eq!(message_handler(&app, s1, "f:0:#o"), vec![send(Role::Viewer, 0, "f:1:#o")]);
}

#[test]
fn quality_and_transform_messages() {
    let (app, _, _, c) = setup();
    assert_eq!(message_handler(&app, c, "i:0:2"), vec![send(Role::Streamer, 0, "i:0:2")]);
    assert_eq!(
        message_handler(&app, c, "i:4:2"),
        vec![Reply::Warn { warning: Warning::QualityRequestToNoOne }]
    );
    assert_eq!(
        message_handler(&app, c, "j:#{\"zoom\":2}"),
        vec![Reply::Broadcast { text: "j:#{\"zoom\":2}".to_string() }]
    );
}

#[test]
fn ignored_and_invalid_messages() {
    let (app, s, _, _) = setup();
    assert_eq!(message_handler(&app, s, "a"), vec![]);
    assert_eq!(message_handler(&app, s, "k:1"), vec![]);
    assert_eq!(message_handler(&app, s, "hello"), vec![Reply::Warn { warning: Warning::InvalidCommand }]);
}

#[test]
fn connecting_and_closing_streamers() {
    let (_, s, v, _) = setup();
    assert_eq!(
        connect_replies(s),
        vec![Reply::SendBack { text: "l:0".to_string() }, Reply::Broadcast { text: "a".to_string() }]
    );
    assert_eq!(connect_replies(v), vec![]);
    assert_eq!(close_replies(s), vec![Reply::Broadcast { text: "k:0".to_string() }]);
    assert_eq!(close_replies(v), vec![]);
}
