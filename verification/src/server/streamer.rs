//! What the server does for a streamer session: announcing it, recording what it reports
//! about itself, and passing its offers and ICE candidates on to viewers and controllers.
use vstd::prelude::*;
use crate::app_state::{
    spec_from_proto, spec_streamer_info, spec_to_proto, unwatched, AppState, ProtoVideoTransform,
    Role, SessionId, StreamerData, VideoTransform,
};
use crate::messages::{
    deliver_to_controllers, deliver_to_watchers, lemma_broadcasts_reach_connected, plain,
    reaches_connected, to_controllers, to_watchers, CloseCause,
    DeliveryModel, Outcome, OutcomeModel, ProtoSession, ServerMessage, ServerMessageModel,
    SessionType, StreamerCommand, Target,
};

verus! {

/// How a message names streamer `session_id` as its sender.
pub open spec fn streamer_session(session_id: usize) -> ProtoSession {
    ProtoSession { id: session_id as u64, session_type: SessionType::Streamer }
}

/// A new streamer is announced to every controller, where it is still connected.
pub open spec fn spec_handle_connection<S>(app: AppState<S>, session_id: usize) -> OutcomeModel {
    OutcomeModel {
        deliveries: if app.streamers().contains_key(session_id) {
            to_controllers(
                app,
                ServerMessageModel::NewStreamerSession {
                    session: spec_streamer_info(session_id, app.streamers()[session_id]),
                },
            )
        } else {
            Seq::empty()
        },
        close: None,
    }
}

/// Handle a new connection from a streamer session.
pub fn handle_connection<S>(session_id: usize, app_data: &AppState<S>) -> (res: Outcome)
    requires
        app_data.wf(),
    ensures
        res@ == spec_handle_connection(*app_data, session_id),
{
    let mut out = Outcome::empty();
    if let Some(myself) = app_data.get_proto_streamer_session(session_id) {
        let message = ServerMessage::NewStreamerSession { session: myself };
        deliver_to_controllers(app_data, &mut out, &message);
    }
    assert(out@.deliveries =~= spec_handle_connection(*app_data, session_id).deliveries);
    out
}

/// A streamer that left is dropped from every controller's view, and every viewer that
/// watched it is told that its streamer is gone.
pub open spec fn spec_handle_disconnect<S>(app: AppState<S>, session_id: usize) -> OutcomeModel {
    OutcomeModel {
        deliveries: to_controllers(
            app,
            ServerMessageModel::DropSession { session: streamer_session(session_id) },
        ) + to_watchers(app, session_id, ServerMessageModel::DisconnectStreamer),
        close: None,
    }
}

/// Handle a disconnection from a streamer session: notify the controllers and the viewers
/// that watched it, who now watch no streamer.
pub fn handle_disconnect<S>(session_id: usize, app_data: &mut AppState<S>) -> (res: Outcome)
    requires
        old(app_data).wf(),
    ensures
        final(app_data).wf(),
        res@ == spec_handle_disconnect(*old(app_data), session_id),
        final(app_data).viewers() == Map::new(
            |i: usize| old(app_data).viewers().contains_key(i),
            |i: usize|
                if old(app_data).viewers()[i].watching == Some(session_id) {
                    unwatched(old(app_data).viewers()[i])
                } else {
                    old(app_data).viewers()[i]
                },
        ),
        final(app_data).streamers() == old(app_data).streamers(),
        final(app_data).controllers() == old(app_data).controllers(),
        forall|r: Role| #[trigger] final(app_data).next_index(r) == old(app_data).next_index(r),
{
    let mut out = Outcome::empty();
    let drop = ServerMessage::DropSession {
        session: ProtoSession { id: session_id as u64, session_type: SessionType::Streamer },
    };
    deliver_to_controllers(app_data, &mut out, &drop);
    deliver_to_watchers(app_data, session_id, &mut out, &ServerMessage::DisconnectStreamer);
    app_data.handle_streamer_disconnection(session_id);
    assert(out@.deliveries =~= spec_handle_disconnect(*old(app_data), session_id).deliveries);
    out
}

/// `message` to the session that `session` names, where it is a connected controller or
/// viewer.
pub open spec fn to_named<S>(
    app: AppState<S>,
    session: Option<ProtoSession>,
    message: ServerMessageModel,
) -> Seq<DeliveryModel> {
    match session {
        Some(s) => if s.session_type == SessionType::Controller && app.controllers().contains_key(
            s.id as usize,
        ) {
            seq![plain(Target::To(SessionId::spec_new(Role::Controller, s.id as usize)), message)]
        } else if s.session_type == SessionType::Viewer && app.viewers().contains_key(
            s.id as usize,
        ) {
            seq![plain(Target::To(SessionId::spec_new(Role::Viewer, s.id as usize)), message)]
        } else {
            Seq::empty()
        },
        None => Seq::empty(),
    }
}

/// The video transform of a wire message, as the state keeps it.
pub open spec fn stored_transform(t: Option<ProtoVideoTransform>) -> Option<VideoTransform> {
    match t {
        Some(p) => Some(spec_from_proto(p)),
        None => None,
    }
}

/// What a message from streamer `session_id` leads to, and whether it closes the connection:
/// - an answer to an offer request goes, with the streamer's video transform, to the
///   controller or viewer it names (closing where the streamer is gone);
/// - a video transform is recorded and passed to its viewers, then to every controller;
/// - a battery level is recorded and passed to every controller;
/// - an ICE candidate goes to the controller or viewer it names;
/// - a zoom goes to every controller;
/// - a message that could not be decoded (`None`) closes the connection.
pub open spec fn spec_handle_message<S>(
    app: AppState<S>,
    session_id: usize,
    command: Option<StreamerCommand>,
) -> OutcomeModel {
    let empty = Seq::<DeliveryModel>::empty();
    match command {
        None => OutcomeModel { deliveries: empty, close: Some(CloseCause::UndecodableMessage) },
        Some(StreamerCommand::RtcOfferResponse { offer, session }) => if app.streamers().contains_key(
            session_id,
        ) {
            OutcomeModel {
                deliveries: to_named(
                    app,
                    session,
                    ServerMessageModel::RequestRtcAnswer {
                        offer,
                        streamer_id: session_id as u64,
                        video_transform: match app.streamers()[session_id].video_transform {
                            Some(t) => Some(spec_to_proto(t)),
                            None => None,
                        },
                    },
                ),
                close: None,
            }
        } else {
            OutcomeModel { deliveries: empty, close: Some(CloseCause::NoStreamerForRtcAnswer) }
        },
        Some(StreamerCommand::RequestVideoTransform { video_transform }) => if app.streamers().contains_key(
            session_id,
        ) {
            let message = ServerMessageModel::UpdateVideoTransform {
                streamer_id: session_id as u64,
                video_transform,
            };
            OutcomeModel {
                deliveries: to_watchers(app, session_id, message) + to_controllers(app, message),
                close: None,
            }
        } else {
            OutcomeModel { deliveries: empty, close: Some(CloseCause::NoStreamerForVideoTransform) }
        },
        Some(StreamerCommand::UpdateBatteryLevel { battery_level }) => if app.streamers().contains_key(
            session_id,
        ) {
            OutcomeModel {
                deliveries: to_controllers(
                    app,
                    ServerMessageModel::BatteryLevel { streamer_id: session_id as u64, battery_level },
                ),
                close: None,
            }
        } else {
            OutcomeModel { deliveries: empty, close: Some(CloseCause::NoStreamerForBatteryLevel) }
        },
        Some(StreamerCommand::IceCandidate { candidate, session }) => OutcomeModel {
            deliveries: to_named(
                app,
                session,
                ServerMessageModel::IceCandidate {
                    candidate,
                    session: Some(streamer_session(session_id)),
                },
            ),
            close: None,
        },
        Some(StreamerCommand::RequestZoom { zoom_bits }) => OutcomeModel {
            deliveries: to_controllers(
                app,
                ServerMessageModel::UpdateZoom { streamer_id: session_id as u64, zoom_bits },
            ),
            close: None,
        },
    }
}

/// The streamers once a message from streamer `session_id` is handled: a video transform
/// or a battery level (cut to its low 8 bits) is recorded; nothing else changes them.
pub open spec fn spec_streamers_after<S>(
    streamers: Map<usize, StreamerData<S>>,
    session_id: usize,
    command: Option<StreamerCommand>,
) -> Map<usize, StreamerData<S>> {
    if streamers.contains_key(session_id) {
        match command {
            Some(StreamerCommand::RequestVideoTransform { video_transform }) => streamers.insert(
                session_id,
                StreamerData {
                    video_transform: stored_transform(video_transform),
                    ..streamers[session_id]
                },
            ),
            Some(StreamerCommand::UpdateBatteryLevel { battery_level }) => streamers.insert(
                session_id,
                StreamerData { battery_level: Some(battery_level as u8), ..streamers[session_id] },
            ),
            _ => streamers,
        }
    } else {
        streamers
    }
}

fn send_to_named<S>(
    app_data: &AppState<S>,
    out: &mut Outcome,
    session: Option<ProtoSession>,
    message: ServerMessage,
)
    requires
        app_data.wf(),
    ensures
        final(out)@ == (OutcomeModel {
            deliveries: old(out)@.deliveries + to_named(*app_data, session, message@),
            close: old(out)@.close,
        }),
{
    let ghost before = out@;
    match session {
        Some(s) => {
            let index = s.id as usize;
            if s.session_type == SessionType::Controller && app_data.get_controller_session(
                index,
            ).is_some() {
                out.deliver(Target::To(SessionId::new(Role::Controller, index)), message, None);
            } else if s.session_type == SessionType::Viewer && app_data.get_viewer_session(
                index,
            ).is_some() {
                out.deliver(Target::To(SessionId::new(Role::Viewer, index)), message, None);
            }
        },
        None => {},
    }
    assert(out@.deliveries =~= before.deliveries + to_named(*app_data, session, message@));
}

/// Which role a session kind of the wire names, for the kinds that can be sent to.
pub open spec fn named_role(kind: SessionType) -> Option<Role> {
    match kind {
        SessionType::Controller => Some(Role::Controller),
        SessionType::Viewer => Some(Role::Viewer),
        _ => None,
    }
}

/// An offer from a connected streamer for a connected controller or viewer goes to that
/// session alone, and nothing closes: it carries the offer, the streamer's index and the
/// video transform the streamer last reported.
pub proof fn lemma_offer_reaches_named_session<S>(
    app: AppState<S>,
    session_id: usize,
    offer: String,
    named: ProtoSession,
)
    requires
        app.wf(),
        app.streamers().contains_key(session_id),
        named.session_type == SessionType::Controller ==> app.controllers().contains_key(
            named.id as usize,
        ),
        named.session_type == SessionType::Viewer ==> app.viewers().contains_key(named.id as usize),
        named_role(named.session_type) is Some,
    ensures
        ({
            let out = spec_handle_message(
                app,
                session_id,
                Some(StreamerCommand::RtcOfferResponse { offer, session: Some(named) }),
            );
            let t = app.streamers()[session_id].video_transform;
            &&& out.close is None
            &&& out.deliveries.len() == 1
            &&& out.deliveries[0] == (DeliveryModel {
                target: Target::To(
                    SessionId::spec_new(named_role(named.session_type)->Some_0, named.id as usize),
                ),
                message: ServerMessageModel::RequestRtcAnswer {
                    offer,
                    streamer_id: session_id as u64,
                    video_transform: if t is Some {
                        Some(spec_to_proto(t->Some_0))
                    } else {
                        None
                    },
                },
                on_failure: None,
            })
        }),
{
}

/// An ICE candidate from a streamer for a connected controller or viewer goes to that
/// session alone, naming the streamer as its sender.
pub proof fn lemma_candidate_names_the_streamer<S>(
    app: AppState<S>,
    session_id: usize,
    candidate: String,
    named: ProtoSession,
)
    requires
        app.wf(),
        named.session_type == SessionType::Controller ==> app.controllers().contains_key(
            named.id as usize,
        ),
        named.session_type == SessionType::Viewer ==> app.viewers().contains_key(named.id as usize),
        named_role(named.session_type) is Some,
    ensures
        ({
            let out = spec_handle_message(
                app,
                session_id,
                Some(StreamerCommand::IceCandidate { candidate, session: Some(named) }),
            );
            &&& out.close is None
            &&& out.deliveries.len() == 1
            &&& out.deliveries[0] == (DeliveryModel {
                target: Target::To(
                    SessionId::spec_new(named_role(named.session_type)->Some_0, named.id as usize),
                ),
                message: ServerMessageModel::IceCandidate {
                    candidate,
                    session: Some(
                        ProtoSession { id: session_id as u64, session_type: SessionType::Streamer },
                    ),
                },
                on_failure: None,
            })
        }),
{
}

/// What a streamer reports of itself is recorded for that streamer alone and passed on:
/// a video transform to the viewers that watch it and then to every controller, a battery
/// level (kept in 8 bits) and a zoom to every controller; each message carries the
/// streamer's index. A zoom is not recorded. Where the streamer is not connected, a video
/// transform or a battery level closes the connection and nothing is sent or recorded.
pub proof fn lemma_reports_are_recorded_and_passed_on<S>(
    app: AppState<S>,
    session_id: usize,
    video_transform: Option<ProtoVideoTransform>,
    battery_level: u32,
    zoom_bits: u32,
)
    requires
        app.wf(),
    ensures
        ({
            let vt = Some(StreamerCommand::RequestVideoTransform { video_transform });
            let bl = Some(StreamerCommand::UpdateBatteryLevel { battery_level });
            let zm = Some(StreamerCommand::RequestZoom { zoom_bits });
            let m = app.streamers();
            let vt_message = ServerMessageModel::UpdateVideoTransform {
                streamer_id: session_id as u64,
                video_transform,
            };
            let bl_message = ServerMessageModel::BatteryLevel {
                streamer_id: session_id as u64,
                battery_level,
            };
            let zm_message = ServerMessageModel::UpdateZoom { streamer_id: session_id as u64, zoom_bits };
            &&& spec_streamers_after(m, session_id, zm) == m
            &&& spec_handle_message(app, session_id, zm) == (OutcomeModel {
                deliveries: to_controllers(app, zm_message),
                close: None,
            })
            &&& if m.contains_key(session_id) {
                let after_vt = spec_streamers_after(m, session_id, vt);
                let after_bl = spec_streamers_after(m, session_id, bl);
                &&& after_vt.dom() == m.dom()
                &&& forall|i: usize| #[trigger] after_vt.contains_key(i) && i != session_id ==> after_vt[i] == m[i]
                &&& after_vt[session_id].video_transform == match video_transform {
                    Some(p) => Some(spec_from_proto(p)),
                    None => None,
                }
                &&& after_vt[session_id].session == m[session_id].session
                &&& after_vt[session_id].name == m[session_id].name
                &&& after_vt[session_id].battery_level == m[session_id].battery_level
                &&& after_bl.dom() == m.dom()
                &&& forall|i: usize| #[trigger] after_bl.contains_key(i) && i != session_id ==> after_bl[i] == m[i]
                &&& after_bl[session_id].battery_level == Some(battery_level as u8)
                &&& after_bl[session_id].session == m[session_id].session
                &&& after_bl[session_id].name == m[session_id].name
                &&& after_bl[session_id].video_transform == m[session_id].video_transform
                &&& spec_handle_message(app, session_id, vt) == (OutcomeModel {
                    deliveries: to_watchers(app, session_id, vt_message) + to_controllers(app, vt_message),
                    close: None,
                })
                &&& spec_handle_message(app, session_id, bl) == (OutcomeModel {
                    deliveries: to_controllers(app, bl_message),
                    close: None,
                })
            } else {
                &&& spec_streamers_after(m, session_id, vt) == m
                &&& spec_streamers_after(m, session_id, bl) == m
                &&& spec_handle_message(app, session_id, vt) == (OutcomeModel {
                    deliveries: Seq::empty(),
                    close: Some(CloseCause::NoStreamerForVideoTransform),
                })
                &&& spec_handle_message(app, session_id, bl) == (OutcomeModel {
                    deliveries: Seq::empty(),
                    close: Some(CloseCause::NoStreamerForBatteryLevel),
                })
            }
        }),
{
    let m = app.streamers();
    if m.contains_key(session_id) {
        let vt = Some(StreamerCommand::RequestVideoTransform { video_transform });
        let bl = Some(StreamerCommand::UpdateBatteryLevel { battery_level });
        assert(spec_streamers_after(m, session_id, vt).dom() =~= m.dom());
        assert(spec_streamers_after(m, session_id, bl).dom() =~= m.dom());
    }
}

/// A connected streamer is announced, with what the state holds of it, to every
/// controller; a streamer that left is dropped, by its index, from every controller's view,
/// and each viewer that watched it is told that its streamer is gone. Neither closes.
pub proof fn lemma_streamer_comings_and_goings<S>(app: AppState<S>, session_id: usize)
    requires
        app.wf(),
    ensures
        spec_handle_connection(app, session_id) == (OutcomeModel {
            deliveries: if app.streamers().contains_key(session_id) {
                to_controllers(
                    app,
                    ServerMessageModel::NewStreamerSession {
                        session: spec_streamer_info(session_id, app.streamers()[session_id]),
                    },
                )
            } else {
                Seq::empty()
            },
            close: None,
        }),
        spec_handle_disconnect(app, session_id) == (OutcomeModel {
            deliveries: to_controllers(
                app,
                ServerMessageModel::DropSession {
                    session: ProtoSession { id: session_id as u64, session_type: SessionType::Streamer },
                },
            ) + to_watchers(app, session_id, ServerMessageModel::DisconnectStreamer),
            close: None,
        }),
{
}

/// Handle a message from a streamer session.
pub fn handle_message<S>(session_id: usize, app_data: &mut AppState<S>, command: Option<StreamerCommand>) -> (res: Outcome)
    requires
        old(app_data).wf(),
    ensures
        final(app_data).wf(),
        res@ == spec_handle_message(*old(app_data), session_id, command),
        final(app_data).streamers() == spec_streamers_after(
            old(app_data).streamers(),
            session_id,
            command,
        ),
        final(app_data).viewers() == old(app_data).viewers(),
        final(app_data).controllers() == old(app_data).controllers(),
        forall|r: Role| #[trigger] final(app_data).next_index(r) == old(app_data).next_index(r),
{
    let ghost spec = spec_handle_message(*app_data, session_id, command);
    let me = ProtoSession { id: session_id as u64, session_type: SessionType::Streamer };
    match command {
        None => Outcome::closing(CloseCause::UndecodableMessage),
        Some(StreamerCommand::RtcOfferResponse { offer, session }) => {
            let video_transform = match app_data.get_streamer_video_transform(session_id) {
                Some(t) => match t {
                    Some(v) => Some(v.to_proto()),
                    None => None,
                },
                None => {
                    return Outcome::closing(CloseCause::NoStreamerForRtcAnswer);
                },
            };
            let mut out = Outcome::empty();
            let message = ServerMessage::RequestRtcAnswer {
                offer,
                streamer_id: session_id as u64,
                video_transform,
            };
            send_to_named(app_data, &mut out, session, message);
            assert(out@.deliveries =~= spec.deliveries);
            out
        },
        Some(StreamerCommand::RequestVideoTransform { video_transform }) => {
            let stored = match video_transform {
                Some(p) => Some(VideoTransform::from_proto(p)),
                None => None,
            };
            if !app_data.set_streamer_video_transform(session_id, stored) {
                return Outcome::closing(CloseCause::NoStreamerForVideoTransform);
            }
            let mut out = Outcome::empty();
            let message = ServerMessage::UpdateVideoTransform {
                streamer_id: session_id as u64,
                video_transform,
            };
            deliver_to_watchers(app_data, session_id, &mut out, &message);
            deliver_to_controllers(app_data, &mut out, &message);
            assert(out@.deliveries =~= spec.deliveries);
            out
        },
        Some(StreamerCommand::UpdateBatteryLevel { battery_level }) => {
            if !app_data.set_streamer_battery_level(session_id, Some(battery_level as u8)) {
                return Outcome::closing(CloseCause::NoStreamerForBatteryLevel);
            }
            let mut out = Outcome::empty();
            let message = ServerMessage::BatteryLevel {
                streamer_id: session_id as u64,
                battery_level,
            };
            deliver_to_controllers(app_data, &mut out, &message);
            assert(out@.deliveries =~= spec.deliveries);
            out
        },
        Some(StreamerCommand::IceCandidate { candidate, session }) => {
            let mut out = Outcome::empty();
            let message = ServerMessage::IceCandidate { candidate, session: Some(me) };
            send_to_named(app_data, &mut out, session, message);
            assert(out@.deliveries =~= spec.deliveries);
            out
        },
        Some(StreamerCommand::RequestZoom { zoom_bits }) => {
            let mut out = Outcome::empty();
            let message = ServerMessage::UpdateZoom { streamer_id: session_id as u64, zoom_bits };
            deliver_to_controllers(app_data, &mut out, &message);
            assert(out@.deliveries =~= spec.deliveries);
            out
        },
    }
}

/// Everything handling a streamer sends goes to a session that is connected when the
/// message arrives.
pub proof fn lemma_deliveries_reach_connected<S>(
    app: AppState<S>,
    session_id: usize,
    command: Option<StreamerCommand>,
)
    requires
        app.wf(),
    ensures
        forall|k: int|
            0 <= k < spec_handle_connection(app, session_id).deliveries.len() ==> reaches_connected(
                app,
                #[trigger] spec_handle_connection(app, session_id).deliveries[k],
            ),
        forall|k: int|
            0 <= k < spec_handle_disconnect(app, session_id).deliveries.len() ==> reaches_connected(
                app,
                #[trigger] spec_handle_disconnect(app, session_id).deliveries[k],
            ),
        forall|k: int|
            0 <= k < spec_handle_message(app, session_id, command).deliveries.len()
                ==> reaches_connected(
                app,
                #[trigger] spec_handle_message(app, session_id, command).deliveries[k],
            ),
{
    if app.streamers().contains_key(session_id) {
        lemma_broadcasts_reach_connected(
            app,
            session_id,
            ServerMessageModel::NewStreamerSession {
                session: spec_streamer_info(session_id, app.streamers()[session_id]),
            },
        );
    }
    let drop = ServerMessageModel::DropSession { session: streamer_session(session_id) };
    lemma_broadcasts_reach_connected(app, session_id, drop);
    lemma_broadcasts_reach_connected(app, session_id, ServerMessageModel::DisconnectStreamer);
    let d = spec_handle_disconnect(app, session_id).deliveries;
    let cs = to_controllers(app, drop);
    let ws = to_watchers(app, session_id, ServerMessageModel::DisconnectStreamer);
    assert forall|k: int| 0 <= k < d.len() implies reaches_connected(app, #[trigger] d[k]) by {
        if k < cs.len() {
            assert(d[k] == cs[k]);
        } else {
            assert(d[k] == ws[k - cs.len()]);
        }
    }
    match command {
        Some(StreamerCommand::RtcOfferResponse { offer, session }) => {
            if let Some(s) = session {
                SessionId::lemma_parts(Role::Controller, s.id as usize);
                SessionId::lemma_parts(Role::Viewer, s.id as usize);
            }
        },
        Some(StreamerCommand::IceCandidate { session, .. }) => {
            if let Some(s) = session {
                SessionId::lemma_parts(Role::Controller, s.id as usize);
                SessionId::lemma_parts(Role::Viewer, s.id as usize);
            }
        },
        Some(StreamerCommand::RequestVideoTransform { video_transform }) => {
            let message = ServerMessageModel::UpdateVideoTransform {
                streamer_id: session_id as u64,
                video_transform,
            };
            lemma_broadcasts_reach_connected(app, session_id, message);
            let d = spec_handle_message(app, session_id, command).deliveries;
            let ws = to_watchers(app, session_id, message);
            let cs = to_controllers(app, message);
            if app.streamers().contains_key(session_id) {
                assert forall|k: int| 0 <= k < d.len() implies reaches_connected(app, #[trigger] d[k]) by {
                    if k < ws.len() {
                        assert(d[k] == ws[k]);
                    } else {
                        assert(d[k] == cs[k - ws.len()]);
                    }
                }
            }
        },
        Some(StreamerCommand::UpdateBatteryLevel { battery_level }) => {
            lemma_broadcasts_reach_connected(
                app,
                session_id,
                ServerMessageModel::BatteryLevel { streamer_id: session_id as u64, battery_level },
            );
        },
        Some(StreamerCommand::RequestZoom { zoom_bits }) => {
            lemma_broadcasts_reach_connected(
                app,
                session_id,
                ServerMessageModel::UpdateZoom { streamer_id: session_id as u64, zoom_bits },
            );
        },
        None => {},
    }
}

} // verus!
