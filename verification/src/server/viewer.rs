//! What the server does for a viewer session: announcing it to the controllers, and
//! passing its answers and ICE candidates on to streamers.
use vstd::prelude::*;
use crate::app_state::{spec_viewer_info, AppState, Role, SessionId};
use crate::messages::{
    deliver_to_controllers, lemma_broadcasts_reach_connected, plain, reaches_connected,
    to_controllers, CloseCause, DeliveryModel, Outcome, OutcomeModel,
    ProtoSession, ServerMessage, ServerMessageModel, SessionType, Target, ViewerCommand,
};

verus! {

/// How a message names viewer `session_id` as its sender.
pub open spec fn viewer_session(session_id: usize) -> ProtoSession {
    ProtoSession { id: session_id as u64, session_type: SessionType::Viewer }
}

/// A new viewer is announced to every controller, where it is still connected.
pub open spec fn spec_handle_connection<S>(app: AppState<S>, session_id: usize) -> OutcomeModel {
    OutcomeModel {
        deliveries: if app.viewers().contains_key(session_id) {
            to_controllers(
                app,
                ServerMessageModel::NewViewerSession {
                    session: spec_viewer_info(session_id, app.viewers()[session_id]),
                },
            )
        } else {
            Seq::empty()
        },
        close: None,
    }
}

/// Handle a new connection from a viewer session.
pub fn handle_connection<S>(session_id: usize, app_data: &AppState<S>) -> (res: Outcome)
    requires
        app_data.wf(),
    ensures
        res@ == spec_handle_connection(*app_data, session_id),
{
    let mut out = Outcome::empty();
    if let Some(myself) = app_data.get_proto_viewer_session(session_id) {
        let message = ServerMessage::NewViewerSession { session: myself };
        deliver_to_controllers(app_data, &mut out, &message);
    }
    assert(out@.deliveries =~= spec_handle_connection(*app_data, session_id).deliveries);
    out
}

/// A viewer that left is dropped from every controller's view.
pub open spec fn spec_handle_disconnect<S>(app: AppState<S>, session_id: usize) -> OutcomeModel {
    OutcomeModel {
        deliveries: to_controllers(
            app,
            ServerMessageModel::DropSession { session: viewer_session(session_id) },
        ),
        close: None,
    }
}

/// Handle a disconnection from a viewer session, notifying the controllers.
pub fn handle_disconnect<S>(session_id: usize, app_data: &AppState<S>) -> (res: Outcome)
    requires
        app_data.wf(),
    ensures
        res@ == spec_handle_disconnect(*app_data, session_id),
{
    let mut out = Outcome::empty();
    let message = ServerMessage::DropSession {
        session: ProtoSession { id: session_id as u64, session_type: SessionType::Viewer },
    };
    deliver_to_controllers(app_data, &mut out, &message);
    assert(out@.deliveries =~= spec_handle_disconnect(*app_data, session_id).deliveries);
    out
}

/// What a message from viewer `session_id` leads to: an answer goes to its streamer, and an
/// ICE candidate addressed to a streamer goes there; both name the viewer as sender. A
/// message that could not be decoded (`None`) closes the connection.
pub open spec fn spec_handle_message<S>(
    app: AppState<S>,
    session_id: usize,
    command: Option<ViewerCommand>,
) -> OutcomeModel {
    match command {
        None => OutcomeModel { deliveries: Seq::empty(), close: Some(CloseCause::UndecodableMessage) },
        Some(ViewerCommand::RtcAnswerResponse { streamer_id, answer }) => OutcomeModel {
            deliveries: if app.streamers().contains_key(streamer_id as usize) {
                seq![
                    plain(
                        Target::To(SessionId::spec_new(Role::Streamer, streamer_id as usize)),
                        ServerMessageModel::RtcAnswer {
                            session: Some(viewer_session(session_id)),
                            answer,
                        },
                    ),
                ]
            } else {
                Seq::empty()
            },
            close: None,
        },
        Some(ViewerCommand::IceCandidate { candidate, session }) => OutcomeModel {
            deliveries: match session {
                Some(s) => if s.session_type == SessionType::Streamer
                    && app.streamers().contains_key(s.id as usize) {
                    seq![
                        plain(
                            Target::To(SessionId::spec_new(Role::Streamer, s.id as usize)),
                            ServerMessageModel::IceCandidate {
                                candidate,
                                session: Some(viewer_session(session_id)),
                            },
                        ),
                    ]
                } else {
                    Seq::empty()
                },
                None => Seq::empty(),
            },
            close: None,
        },
    }
}

/// A viewer's answer goes to the streamer it is for, where that streamer is connected, and
/// names the viewer that sent it, whatever the streamer's index; where the streamer is gone,
/// nothing is sent. Nothing closes.
pub proof fn lemma_answer_names_the_viewer<S>(
    app: AppState<S>,
    session_id: usize,
    streamer_id: u64,
    answer: String,
)
    requires
        app.wf(),
    ensures
        ({
            let out = spec_handle_message(
                app,
                session_id,
                Some(ViewerCommand::RtcAnswerResponse { streamer_id, answer }),
            );
            &&& out.close is None
            &&& app.streamers().contains_key(streamer_id as usize) ==> out.deliveries == seq![
                DeliveryModel {
                    target: Target::To(SessionId::spec_new(Role::Streamer, streamer_id as usize)),
                    message: ServerMessageModel::RtcAnswer {
                        session: Some(
                            ProtoSession { id: session_id as u64, session_type: SessionType::Viewer },
                        ),
                        answer,
                    },
                    on_failure: None,
                },
            ]
            &&& !app.streamers().contains_key(streamer_id as usize) ==> out.deliveries.len() == 0
        }),
{
}

/// A viewer's ICE candidate for a connected streamer goes to that streamer alone, naming
/// the viewer that sent it.
pub proof fn lemma_candidate_names_the_viewer<S>(
    app: AppState<S>,
    session_id: usize,
    candidate: String,
    streamer_id: u64,
)
    requires
        app.wf(),
        app.streamers().contains_key(streamer_id as usize),
    ensures
        ({
            let named = ProtoSession { id: streamer_id, session_type: SessionType::Streamer };
            let out = spec_handle_message(
                app,
                session_id,
                Some(ViewerCommand::IceCandidate { candidate, session: Some(named) }),
            );
            &&& out.close is None
            &&& out.deliveries == seq![
                DeliveryModel {
                    target: Target::To(SessionId::spec_new(Role::Streamer, streamer_id as usize)),
                    message: ServerMessageModel::IceCandidate {
                        candidate,
                        session: Some(
                            ProtoSession { id: session_id as u64, session_type: SessionType::Viewer },
                        ),
                    },
                    on_failure: None,
                },
            ]
        }),
{
}

/// A connected viewer is announced, with what the state holds of it, to every controller;
/// a viewer that left is dropped, by its index, from every controller's view. Neither
/// closes.
pub proof fn lemma_viewer_comings_and_goings<S>(app: AppState<S>, session_id: usize)
    requires
        app.wf(),
    ensures
        spec_handle_connection(app, session_id) == (OutcomeModel {
            deliveries: if app.viewers().contains_key(session_id) {
                to_controllers(
                    app,
                    ServerMessageModel::NewViewerSession {
                        session: spec_viewer_info(session_id, app.viewers()[session_id]),
                    },
                )
            } else {
                Seq::empty()
            },
            close: None,
        }),
        spec_handle_disconnect(app, session_id) == (OutcomeModel {
            deliveries: to_controllers(
                app,
                ServerMessageModel::DropSession {
                    session: ProtoSession { id: session_id as u64, session_type: SessionType::Viewer },
                },
            ),
            close: None,
        }),
{
}

/// Handle a message from a viewer session.
pub fn handle_message<S>(session_id: usize, app_data: &AppState<S>, command: Option<ViewerCommand>) -> (res: Outcome)
    requires
        app_data.wf(),
    ensures
        res@ == spec_handle_message(*app_data, session_id, command),
{
    let ghost spec = spec_handle_message(*app_data, session_id, command);
    let me = ProtoSession { id: session_id as u64, session_type: SessionType::Viewer };
    match command {
        None => Outcome::closing(CloseCause::UndecodableMessage),
        Some(ViewerCommand::RtcAnswerResponse { streamer_id, answer }) => {
            let mut out = Outcome::empty();
            let index = streamer_id as usize;
            if app_data.get_streamer_session(index).is_some() {
                out.deliver(
                    Target::To(SessionId::new(Role::Streamer, index)),
                    ServerMessage::RtcAnswer { session: Some(me), answer },
                    None,
                );
            }
            assert(out@.deliveries =~= spec.deliveries);
            out
        },
        Some(ViewerCommand::IceCandidate { candidate, session }) => {
            let mut out = Outcome::empty();
            if let Some(streamer) = session {
                if streamer.session_type == SessionType::Streamer {
                    let index = streamer.id as usize;
                    if app_data.get_streamer_session(index).is_some() {
                        out.deliver(
                            Target::To(SessionId::new(Role::Streamer, index)),
                            ServerMessage::IceCandidate { candidate, session: Some(me) },
                            None,
                        );
                    }
                }
            }
            assert(out@.deliveries =~= spec.deliveries);
            out
        },
    }
}

/// Everything handling a viewer sends goes to a session that is connected.
pub proof fn lemma_deliveries_reach_connected<S>(
    app: AppState<S>,
    session_id: usize,
    command: Option<ViewerCommand>,
)
    requires
        app.wf(),
    ensures
        forall|k: int|
            0 <= k < spec_handle_connection(app, session_id).deliveries.len() ==> reaches_connected(
                app,
                #[trigger] spec_handle_connection(app, session_id).deliveries[k],
            ),
        forall|k: int|
            0 <= k < spec_handle_disconnect(app, session_id).deliveries.len() ==> reaches_connected(
                app,
                #[trigger] spec_handle_disconnect(app, session_id).deliveries[k],
            ),
        forall|k: int|
            0 <= k < spec_handle_message(app, session_id, command).deliveries.len()
                ==> reaches_connected(
                app,
                #[trigger] spec_handle_message(app, session_id, command).deliveries[k],
            ),
{
    if app.viewers().contains_key(session_id) {
        lemma_broadcasts_reach_connected(
            app,
            0,
            ServerMessageModel::NewViewerSession {
                session: spec_viewer_info(session_id, app.viewers()[session_id]),
            },
        );
    }
    lemma_broadcasts_reach_connected(
        app,
        0,
        ServerMessageModel::DropSession { session: viewer_session(session_id) },
    );
    match command {
        Some(ViewerCommand::RtcAnswerResponse { streamer_id, .. }) => {
            SessionId::lemma_parts(Role::Streamer, streamer_id as usize);
        },
        Some(ViewerCommand::IceCandidate { session: Some(s), .. }) => {
            SessionId::lemma_parts(Role::Streamer, s.id as usize);
        },
        _ => {},
    }
}

} // verus!
