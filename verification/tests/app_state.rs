use mobile_cam::app_state::{AppState, InvalidRoleError, Role, SessionId, VideoTransform};
use std::str::FromStr;

fn transform(rotation: i16, zoom: f32) -> VideoTransform {
    VideoTransform { rotation, zoom_bits: zoom.to_bits(), x_bits: 0.5f32.to_bits(), y_bits: 0f32.to_bits() }
}

#[test]
fn roles_parse_ignoring_case() {
    assert_eq!(Role::parse("viewer"), Ok(Role::Viewer));
    assert_eq!(Role::parse("Streamer"), Ok(Role::Streamer));
    assert_eq!(Role::parse("CONTROLLER"), Ok(Role::Controller));
    assert_eq!(Role::parse("cOnTrOlLeR"), Ok(Role::Controller));
    assert_eq!(Role::parse("viewers"), Err(InvalidRoleError));
    assert_eq!(Role::parse(""), Err(InvalidRoleError));
    assert_eq!(Role::parse(" viewer"), Err(InvalidRoleError));
    assert_eq!(Role::from_str("streamer"), Ok(Role::Streamer));
    assert_eq!("x".parse::<Role>(), Err(InvalidRoleError));
    assert_eq!(InvalidRoleError.message(), "Invalid role provided");
}

#[test]
fn session_ids() {
    let v = SessionId::new(Role::Viewer, 3);
    assert_eq!(v.as_viewer(), Some(3));
    assert_eq!(v.role(), Role::Viewer);
    assert_eq!(v.index(), 3);
    assert_eq!(SessionId::new(Role::Streamer, 3).as_viewer(), None);
    assert_eq!(SessionId::new(Role::Controller, 0).as_viewer(), None);
    assert_eq!(v.to_text(), "Viewer(3)");
    assert_eq!(SessionId::new(Role::Controller, 12).to_text(), "Controller(12)");
    assert_ne!(v, SessionId::new(Role::Streamer, 3));
}

#[test]
fn sessions_are_added_and_removed_per_role() {
    let mut app: AppState<&str> = AppState::new();
    let s = app.add_streamer("s0", Some("Phone"));
    let c = app.add_controller("c0");
    let v = app.insert(Role::Viewer, "v0");
    assert_eq!(s, SessionId::new(Role::Streamer, 0));
    assert_eq!(c, SessionId::new(Role::Controller, 0));
    assert_eq!(v, SessionId::new(Role::Viewer, 0));
    assert_eq!(app.get_session(s), Some(&"s0"));
    assert_eq!(app.get_session(c), Some(&"c0"));
    assert_eq!(app.get_session(v), Some(&"v0"));
    assert_eq!(app.get_session(SessionId::new(Role::Viewer, 1)), None);
    assert_eq!(app.remove_session(s), Some("s0"));
    assert_eq!(app.remove_session(s), None);
    assert_eq!(app.get_streamer_session(0), None);
    // The freed index is handed out again.
    assert_eq!(app.add_streamer("s1", None), SessionId::new(Role::Streamer, 0));
    assert_eq!(app.get_streamer_session(0), Some(&"s1"));
    assert_eq!(app.len_viewers(), 1);
}

#[test]
fn viewers_watch_streamers() {
    let mut app: AppState<&str> = AppState::new();
    let s0 = app.add_streamer("s0", None).index();
    let s1 = app.add_streamer("s1", None).index();
    let v0 = app.add_viewer("v0", Some("Ann")).index();
    let v1 = app.add_viewer("v1", None).index();
    let v2 = app.add_viewer("v2", None).index();
    assert!(app.update_viewer_watching(v0, Some(s1)));
    assert!(app.update_viewer_watching(v2, Some(s1)));
    assert!(app.update_viewer_watching(v1, Some(s0)));
    assert!(!app.update_viewer_watching(9, Some(s0)));
    assert_eq!(app.get_viewer_watching(v0), Some(s1));
    assert_eq!(app.get_all_viewer_sessions_by_streamer(Some(s1)), vec![(v0, &"v0"), (v2, &"v2")]);
    assert_eq!(app.get_all_viewer_sessions_by_streamer(Some(s0)), vec![(v1, &"v1")]);
    assert_eq!(app.get_all_viewer_sessions_by_streamer(None), vec![]);
    assert_eq!(app.get_streamer_session_from_viewer(v0), Some(Some(&"s1")));
    assert_eq!(app.get_streamer_session_from_viewer(7), None);
    let infos = app.get_proto_viewer_sessions_by_streamer(Some(s1));
    assert_eq!(infos.len(), 2);
    assert_eq!(infos[0].id, 0);
    assert_eq!(infos[1].id, 2);
    assert_eq!(infos[0].streamer_id, Some(1));
    assert_eq!(infos[0].name.as_deref(), Some("Ann"));
    assert_eq!(app.get_all_proto_viewer_sessions().len(), 3);
    let one = app.get_proto_viewer_session(v1).unwrap();
    assert_eq!((one.id, one.streamer_id, one.name), (1, Some(0), None));
    assert!(app.get_proto_viewer_session(8).is_none());
    // The streamer s1 leaves: its viewers watch no one.
    app.remove_session(SessionId::new(Role::Streamer, s1));
    assert_eq!(app.handle_streamer_disconnection(s1), vec![v0, v2]);
    assert_eq!(app.get_viewer_watching(v0), None);
    assert_eq!(app.get_viewer_watching(v1), Some(s0));
    assert_eq!(app.get_streamer_session_from_viewer(v0), Some(None));
}

#[test]
fn streamer_reports_are_recorded() {
    let mut app: AppState<u32> = AppState::new();
    let s = app.add_streamer(7, Some("Cam")).index();
    assert_eq!(app.get_streamer_video_transform(s), Some(&None));
    assert_eq!(app.get_streamer_video_transform(5), None);
    let t = transform(90, 1.5);
    assert!(app.set_streamer_video_transform(s, Some(t)));
    assert!(app.set_streamer_battery_level(s, Some(80)));
    assert!(!app.set_streamer_battery_level(4, Some(1)));
    assert_eq!(app.get_streamer_video_transform(s), Some(&Some(t)));
    let info = app.get_proto_streamer_session(s).unwrap();
    assert_eq!(info.id, s as u64);
    assert_eq!(info.name.as_deref(), Some("Cam"));
    assert_eq!(info.zoom_bits.map(f32::from_bits), Some(1.5));
    assert_eq!(info.battery_level, Some(80));
    assert_eq!(app.get_all_proto_streamer_sessions().len(), 1);
    assert_eq!(app.get_all_streamers_id(), vec![s]);
}

#[test]
fn controllers_then_viewers_in_index_order() {
    let mut app: AppState<&str> = AppState::new();
    app.add_viewer("v0", None);
    app.add_controller("c0");
    app.add_viewer("v1", None);
    app.add_controller("c1");
    app.add_streamer("s0", None);
    assert_eq!(app.get_all_controllers_and_viewers_sessions(), vec![&"c0", &"c1", &"v0", &"v1"]);
    assert_eq!(app.get_all_controller_sessions(), vec![(0, &"c0"), (1, &"c1")]);
}

#[test]
fn video_transform_conversion() {
    let t = transform(-45, 2.0);
    let p = t.to_proto();
    assert_eq!(p.rotation, -45);
    assert_eq!(VideoTransform::from_proto(p), t);
    let mut wide = p;
    wide.rotation = 65536 + 10;
    assert_eq!(VideoTransform::from_proto(wide).rotation, 10);
}

#[test]
fn session_id_from_pair() {
    let id: SessionId = (Role::Streamer, 4).into();
    assert_eq!(id, SessionId::new(Role::Streamer, 4));
    assert_eq!(SessionId::from((Role::Viewer, 1)).as_viewer(), Some(1));
}

#[test]
fn insert_adds_one_bare_session_and_keeps_the_others() {
    let mut app: AppState<&str> = AppState::new();
    let first = app.add_streamer("s0", Some("Cam"));
    assert!(app.set_streamer_battery_level(first.index(), Some(40)));
    let id = app.insert(Role::Streamer, "s1");
    assert_eq!(id.role(), Role::Streamer);
    assert_eq!(id.index(), 1);
    assert_eq!(app.get_streamer_session(first.index()), Some(&"s0"));
    assert_eq!(app.get_streamer_session(id.index()), Some(&"s1"));
    assert_eq!(app.get_streamer_video_transform(id.index()), Some(&None));
    let info = app.get_proto_streamer_session(id.index()).unwrap();
    assert_eq!(info.name, None);
    assert_eq!(info.battery_level, None);
    let old = app.get_proto_streamer_session(first.index()).unwrap();
    assert_eq!(old.name.as_deref(), Some("Cam"));
    assert_eq!(old.battery_level, Some(40));
    let v = app.insert(Role::Viewer, "v0");
    assert_eq!(v.index(), 0);
    assert_eq!(app.get_viewer_watching(v.index()), None);
    assert_eq!(app.get_all_streamers_id(), vec![0, 1]);
}

#[test]
fn wire_transform_round_trips_when_rotation_fits() {
    let t = transform(i16::MIN, 0.25);
    assert_eq!(VideoTransform::from_proto(t.to_proto()), t);
    let p = transform(300, 3.0).to_proto();
    assert_eq!(VideoTransform::from_proto(p).to_proto(), p);
}
