//! What the server does for a controller session: greeting it, answering its list requests,
//! passing its requests on to streamers, and changing which streamer a viewer watches.
use vstd::prelude::*;
use crate::app_state::{
    spec_streamer_info, spec_viewer_info, streamer_infos, viewer_infos, watching_infos, AppState, Role, SessionId, ViewerData,
};
use crate::messages::{
    reaches_connected, CloseCause, ControllerCommand, DeliveryModel, Outcome, OutcomeModel, ProtoSession,
    ServerMessage, ServerMessageModel, SessionType, Target,
};

verus! {

/// How a message names controller `session_id` as its sender.
pub open spec fn controller_session(session_id: usize) -> ProtoSession {
    ProtoSession { id: session_id as u64, session_type: SessionType::Controller }
}

/// A delivery that closes the connection with `cause` where it fails.
pub open spec fn guarded(target: Target, message: ServerMessageModel, cause: CloseCause) -> DeliveryModel {
    DeliveryModel { target, message, on_failure: Some(cause) }
}

/// A new controller is greeted with its index, the streamers and the number of viewers;
/// the connection closes where the greeting cannot be sent.
pub open spec fn spec_handle_connection<S>(app: AppState<S>, session_id: usize) -> OutcomeModel {
    OutcomeModel {
        deliveries: seq![
            guarded(
                Target::Back,
                ServerMessageModel::Ready {
                    id: session_id as u64,
                    streamers: streamer_infos(app.streamer_entries()),
                    viewer_count: app.viewers().len() as u32,
                },
                CloseCause::ReadyNotSent,
            ),
        ],
        close: None,
    }
}

/// Handle a new connection from a controller session.
pub fn handle_connection<S>(session_id: usize, app_data: &AppState<S>) -> (res: Outcome)
    requires
        app_data.wf(),
    ensures
        res@ == spec_handle_connection(*app_data, session_id),
{
    let mut out = Outcome::empty();
    let message = ServerMessage::Ready {
        id: session_id as u64,
        streamers: app_data.get_all_proto_streamer_sessions(),
        viewer_count: app_data.len_viewers() as u32,
    };
    out.deliver(Target::Back, message, Some(CloseCause::ReadyNotSent));
    assert(out@.deliveries =~= spec_handle_connection(*app_data, session_id).deliveries);
    out
}

/// `message` to streamer `streamer_id` where it is connected, closing where it cannot be
/// sent.
pub open spec fn to_streamer<S>(
    app: AppState<S>,
    streamer_id: u64,
    message: ServerMessageModel,
    cause: CloseCause,
) -> Seq<DeliveryModel> {
    if app.streamers().contains_key(streamer_id as usize) {
        seq![
            guarded(
                Target::To(SessionId::spec_new(Role::Streamer, streamer_id as usize)),
                message,
                cause,
            ),
        ]
    } else {
        Seq::empty()
    }
}

/// The streamer index a message names, as the state keys it.
pub open spec fn streamer_key(streamer_id: Option<u64>) -> Option<usize> {
    match streamer_id {
        Some(id) => Some(id as usize),
        None => None,
    }
}

/// What a message from controller `session_id` leads to, and whether it closes:
/// - offer, quality and zoom requests go to the streamer they name, where it is connected;
/// - list requests are answered with the streamers, the viewers of a streamer, or all viewers;
/// - an ICE candidate addressed to a connected streamer goes there;
/// - changing what a connected viewer watches asks the new streamer for an offer for that
///   viewer, or, where it now watches none, tells the viewer to disconnect;
/// - each of these closes the connection where its message cannot be sent;
/// - an unsupported command, or a message that could not be decoded (`None`), closes it.
pub open spec fn spec_handle_message<S>(
    app: AppState<S>,
    session_id: usize,
    command: Option<ControllerCommand>,
) -> OutcomeModel {
    let empty = Seq::<DeliveryModel>::empty();
    let me = Some(controller_session(session_id));
    match command {
        None => OutcomeModel { deliveries: empty, close: Some(CloseCause::InvalidMessageFormat) },
        Some(ControllerCommand::Unsupported) => OutcomeModel {
            deliveries: empty,
            close: Some(CloseCause::UnsupportedCommand),
        },
        Some(ControllerCommand::RequestRtcOffer { streamer_id }) => OutcomeModel {
            deliveries: to_streamer(
                app,
                streamer_id,
                ServerMessageModel::CreateRtcOffer { session: me },
                CloseCause::RtcOfferRequestNotSent,
            ),
            close: None,
        },
        Some(ControllerCommand::RequestChangeQuality { streamer_id, quality }) => OutcomeModel {
            deliveries: to_streamer(
                app,
                streamer_id,
                ServerMessageModel::ChangeQuality { quality },
                CloseCause::ChangeQualityNotSent,
            ),
            close: None,
        },
        Some(ControllerCommand::RequestZoom { streamer_id, zoom_bits }) => OutcomeModel {
            deliveries: to_streamer(
                app,
                streamer_id,
                ServerMessageModel::Zoom { zoom_bits },
                CloseCause::ZoomRequestNotSent,
            ),
            close: None,
        },
        Some(ControllerCommand::ListStreamers) => OutcomeModel {
            deliveries: seq![
                guarded(
                    Target::Back,
                    ServerMessageModel::ListStreamersResponse {
                        streamers: streamer_infos(app.streamer_entries()),
                    },
                    CloseCause::StreamerListNotSent,
                ),
            ],
            close: None,
        },
        Some(ControllerCommand::ListViewers { streamer_id }) => OutcomeModel {
            deliveries: seq![
                guarded(
                    Target::Back,
                    ServerMessageModel::ListViewersResponse {
                        viewers: watching_infos(app.viewer_entries(), streamer_key(streamer_id)),
                    },
                    CloseCause::ViewerListNotSent,
                ),
            ],
            close: None,
        },
        Some(ControllerCommand::ListAllViewers) => OutcomeModel {
            deliveries: seq![
                guarded(
                    Target::Back,
                    ServerMessageModel::ListViewersResponse {
                        viewers: viewer_infos(app.viewer_entries()),
                    },
                    CloseCause::AllViewersListNotSent,
                ),
            ],
            close: None,
        },
        Some(ControllerCommand::IceCandidate { candidate, session }) => OutcomeModel {
            deliveries: match session {
                Some(s) => if s.session_type == SessionType::Streamer {
                    to_streamer(
                        app,
                        s.id,
                        ServerMessageModel::IceCandidate { candidate, session: me },
                        CloseCause::IceCandidateNotSent,
                    )
                } else {
                    empty
                },
                None => empty,
            },
            close: None,
        },
        Some(ControllerCommand::UpdateWatching { viewer_id, streamer_id }) => OutcomeModel {
            deliveries: if !app.viewers().contains_key(viewer_id as usize) {
                empty
            } else {
                match streamer_id {
                    Some(s) => to_streamer(
                        app,
                        s,
                        ServerMessageModel::CreateRtcOffer {
                            session: Some(
                                ProtoSession { id: viewer_id, session_type: SessionType::Viewer },
                            ),
                        },
                        CloseCause::UpdatedViewerNotSent,
                    ),
                    None => seq![
                        guarded(
                            Target::To(SessionId::spec_new(Role::Viewer, viewer_id as usize)),
                            ServerMessageModel::DisconnectStreamer,
                            CloseCause::ViewerDisconnectNotSent,
                        ),
                    ],
                }
            },
            close: None,
        },
    }
}

/// The viewers once a message from a controller is handled: only changing what a connected
/// viewer watches changes them.
pub open spec fn spec_viewers_after<S>(
    viewers: Map<usize, ViewerData<S>>,
    command: Option<ControllerCommand>,
) -> Map<usize, ViewerData<S>> {
    match command {
        Some(ControllerCommand::UpdateWatching { viewer_id, streamer_id }) => if viewers.contains_key(
            viewer_id as usize,
        ) {
            viewers.insert(
                viewer_id as usize,
                ViewerData { watching: streamer_key(streamer_id), ..viewers[viewer_id as usize] },
            )
        } else {
            viewers
        },
        _ => viewers,
    }
}

/// The info list of all viewers has one entry per connected viewer, describing it, by
/// increasing index.
proof fn lemma_viewer_infos_cover<S>(app: AppState<S>)
    requires
        app.wf(),
    ensures
        ({
            let vs = viewer_infos(app.viewer_entries());
            &&& vs.len() == app.viewers().len()
            &&& forall|i: usize|
                #[trigger] app.viewers().contains_key(i) ==> exists|k: int|
                    0 <= k < vs.len() && vs[k] == spec_viewer_info(i, app.viewers()[i])
            &&& forall|k: int|
                #![trigger vs[k]]
                0 <= k < vs.len() ==> app.viewers().contains_key(vs[k].id as usize) && vs[k]
                    == spec_viewer_info(vs[k].id as usize, app.viewers()[vs[k].id as usize])
            &&& forall|k: int, l: int| 0 <= k < l < vs.len() ==> #[trigger] vs[k].id < #[trigger] vs[l].id
        }),
{
    app.lemma_entries_in_key_order();
    let es = app.viewer_entries();
    let vs = viewer_infos(es);
    assert forall|i: usize| #[trigger] app.viewers().contains_key(i) implies exists|k: int|
        0 <= k < vs.len() && vs[k] == spec_viewer_info(i, app.viewers()[i]) by {
        let k = choose|k: int| 0 <= k < es.len() && es[k].0 == i;
        assert(vs[k] == spec_viewer_info(es[k].0, es[k].1));
    }
    assert forall|k: int| #![trigger vs[k]] 0 <= k < vs.len() implies app.viewers().contains_key(
        vs[k].id as usize,
    ) && vs[k] == spec_viewer_info(vs[k].id as usize, app.viewers()[vs[k].id as usize]) by {
        let i = es[k].0;
        assert(vs[k] == spec_viewer_info(es[k].0, es[k].1));
        assert(app.viewers().contains_key(i) && app.viewers()[i] == es[k].1);
    }
    assert forall|k: int, l: int| 0 <= k < l < vs.len() implies #[trigger] vs[k].id < #[trigger] vs[l].id by {
        assert(es[k].0 < es[l].0);
    }
}

/// A request for all viewers is answered back to the controller, and only there, with one
/// entry for each connected viewer, whatever it watches, by increasing index; each entry
/// describes that viewer. Nothing closes, unless the answer cannot be sent.
pub proof fn lemma_all_viewers_are_listed<S>(app: AppState<S>, session_id: usize)
    requires
        app.wf(),
    ensures
        ({
            let out = spec_handle_message(app, session_id, Some(ControllerCommand::ListAllViewers));
            &&& out.close is None
            &&& out.deliveries.len() == 1
            &&& out.deliveries[0].target == Target::Back
            &&& out.deliveries[0].on_failure == Some(CloseCause::AllViewersListNotSent)
            &&& out.deliveries[0].message is ListViewersResponse
            &&& {
                let vs = out.deliveries[0].message->ListViewersResponse_viewers;
                &&& vs.len() == app.viewers().len()
                &&& forall|i: usize|
                    #[trigger] app.viewers().contains_key(i) ==> exists|k: int|
                        0 <= k < vs.len() && vs[k] == spec_viewer_info(i, app.viewers()[i])
                &&& forall|k: int|
                    #![trigger vs[k]]
                    0 <= k < vs.len() ==> app.viewers().contains_key(vs[k].id as usize) && vs[k]
                        == spec_viewer_info(vs[k].id as usize, app.viewers()[vs[k].id as usize])
                &&& forall|k: int, l: int| 0 <= k < l < vs.len() ==> #[trigger] vs[k].id < #[trigger] vs[l].id
            }
        }),
{
    lemma_viewer_infos_cover(app);
    let out = spec_handle_message(app, session_id, Some(ControllerCommand::ListAllViewers));
    assert(out.deliveries[0].message->ListViewersResponse_viewers == viewer_infos(app.viewer_entries()));
}

/// `deliveries` is one message to streamer `streamer_id`, closing with `cause` where it
/// cannot be sent, if that streamer is connected, and nothing otherwise.
pub open spec fn only_to_streamer<S>(
    app: AppState<S>,
    deliveries: Seq<DeliveryModel>,
    streamer_id: u64,
    message: ServerMessageModel,
    cause: CloseCause,
) -> bool {
    if app.streamers().contains_key(streamer_id as usize) {
        deliveries == seq![
            DeliveryModel {
                target: Target::To(SessionId::spec_new(Role::Streamer, streamer_id as usize)),
                message,
                on_failure: Some(cause),
            },
        ]
    } else {
        deliveries.len() == 0
    }
}

/// A controller's offer, quality, zoom and ICE candidate requests go to the streamer they
/// name, and there alone; the offer request and the candidate name the controller that
/// sent them. None of them closes the connection, unless its message cannot be sent.
pub proof fn lemma_requests_reach_the_streamer<S>(
    app: AppState<S>,
    session_id: usize,
    streamer_id: u64,
    quality: i32,
    zoom_bits: u32,
    candidate: String,
)
    requires
        app.wf(),
    ensures
        ({
            let me = Some(ProtoSession { id: session_id as u64, session_type: SessionType::Controller });
            let offer = spec_handle_message(
                app,
                session_id,
                Some(ControllerCommand::RequestRtcOffer { streamer_id }),
            );
            let change = spec_handle_message(
                app,
                session_id,
                Some(ControllerCommand::RequestChangeQuality { streamer_id, quality }),
            );
            let zoom = spec_handle_message(
                app,
                session_id,
                Some(ControllerCommand::RequestZoom { streamer_id, zoom_bits }),
            );
            let ice = spec_handle_message(
                app,
                session_id,
                Some(
                    ControllerCommand::IceCandidate {
                        candidate,
                        session: Some(
                            ProtoSession { id: streamer_id, session_type: SessionType::Streamer },
                        ),
                    },
                ),
            );
            &&& offer.close is None && only_to_streamer(
                app,
                offer.deliveries,
                streamer_id,
                ServerMessageModel::CreateRtcOffer { session: me },
                CloseCause::RtcOfferRequestNotSent,
            )
            &&& change.close is None && only_to_streamer(
                app,
                change.deliveries,
                streamer_id,
                ServerMessageModel::ChangeQuality { quality },
                CloseCause::ChangeQualityNotSent,
            )
            &&& zoom.close is None && only_to_streamer(
                app,
                zoom.deliveries,
                streamer_id,
                ServerMessageModel::Zoom { zoom_bits },
                CloseCause::ZoomRequestNotSent,
            )
            &&& ice.close is None && only_to_streamer(
                app,
                ice.deliveries,
                streamer_id,
                ServerMessageModel::IceCandidate { candidate, session: me },
                CloseCause::IceCandidateNotSent,
            )
        }),
{
}

/// Changing what a connected viewer watches records the new streamer for that viewer and
/// for no other. Where it now watches a streamer, that streamer, if connected, is asked
/// for an offer for the viewer; where it watches none, the viewer is told to disconnect.
/// For a viewer that is not connected nothing changes and nothing is sent.
pub proof fn lemma_watching_change<S>(
    app: AppState<S>,
    session_id: usize,
    viewer_id: u64,
    streamer_id: Option<u64>,
)
    requires
        app.wf(),
    ensures
        ({
            let command = Some(ControllerCommand::UpdateWatching { viewer_id, streamer_id });
            let out = spec_handle_message(app, session_id, command);
            let after = spec_viewers_after(app.viewers(), command);
            let v = viewer_id as usize;
            &&& out.close is None
            &&& after.dom() == app.viewers().dom()
            &&& forall|i: usize| #[trigger] after.contains_key(i) && i != v ==> after[i] == app.viewers()[i]
            &&& if app.viewers().contains_key(v) {
                &&& after[v].session == app.viewers()[v].session
                &&& after[v].name == app.viewers()[v].name
                &&& after[v].watching == match streamer_id {
                    Some(s) => Some(s as usize),
                    None => None,
                }
                &&& match streamer_id {
                    Some(s) => only_to_streamer(
                        app,
                        out.deliveries,
                        s,
                        ServerMessageModel::CreateRtcOffer {
                            session: Some(ProtoSession { id: viewer_id, session_type: SessionType::Viewer }),
                        },
                        CloseCause::UpdatedViewerNotSent,
                    ),
                    None => out.deliveries == seq![
                        DeliveryModel {
                            target: Target::To(SessionId::spec_new(Role::Viewer, v)),
                            message: ServerMessageModel::DisconnectStreamer,
                            on_failure: Some(CloseCause::ViewerDisconnectNotSent),
                        },
                    ],
                }
            } else {
                &&& after == app.viewers()
                &&& out.deliveries.len() == 0
            }
        }),
{
    let command = Some(ControllerCommand::UpdateWatching { viewer_id, streamer_id });
    let after = spec_viewers_after(app.viewers(), command);
    assert(after.dom() =~= app.viewers().dom());
}

/// Each entry that `watching_infos` lists describes an entry of `es` that watches `key`.
proof fn lemma_watching_infos_source<S>(es: Seq<(usize, ViewerData<S>)>, key: Option<usize>)
    ensures
        forall|k: int|
            #![trigger watching_infos(es, key)[k]]
            0 <= k < watching_infos(es, key).len() ==> exists|j: int|
                0 <= j < es.len() && es[j].1.watching == key && watching_infos(es, key)[k]
                    == spec_viewer_info(es[j].0, es[j].1),
    decreases es.len(),
{
    if es.len() > 0 {
        let pre = es.drop_last();
        lemma_watching_infos_source(pre, key);
        let wp = watching_infos(pre, key);
        let w = watching_infos(es, key);
        let n = es.len() - 1;
        assert forall|k: int|
            #![trigger w[k]]
            0 <= k < w.len() implies exists|j: int|
                0 <= j < es.len() && es[j].1.watching == key && w[k] == spec_viewer_info(
                    es[j].0,
                    es[j].1,
                ) by {
            if k < wp.len() {
                assert(w[k] == wp[k]);
                let j = choose|j: int|
                    0 <= j < pre.len() && pre[j].1.watching == key && wp[k] == spec_viewer_info(
                        pre[j].0,
                        pre[j].1,
                    );
                assert(pre[j] == es[j]);
            } else {
                assert(w[k] == spec_viewer_info(es[n].0, es[n].1));
            }
        }
    }
}

/// Each entry of `es` that watches `key` is described in what `watching_infos` lists.
proof fn lemma_watching_infos_cover<S>(es: Seq<(usize, ViewerData<S>)>, key: Option<usize>)
    ensures
        forall|j: int|
            #![trigger es[j]]
            0 <= j < es.len() && es[j].1.watching == key ==> exists|k: int|
                0 <= k < watching_infos(es, key).len() && watching_infos(es, key)[k]
                    == spec_viewer_info(es[j].0, es[j].1),
    decreases es.len(),
{
    if es.len() > 0 {
        let pre = es.drop_last();
        lemma_watching_infos_cover(pre, key);
        let wp = watching_infos(pre, key);
        let w = watching_infos(es, key);
        let n = es.len() - 1;
        assert forall|j: int|
            #![trigger es[j]]
            0 <= j < es.len() && es[j].1.watching == key implies exists|k: int|
                0 <= k < w.len() && w[k] == spec_viewer_info(es[j].0, es[j].1) by {
            if j < n {
                assert(pre[j] == es[j]);
                let k = choose|k: int| 0 <= k < wp.len() && wp[k] == spec_viewer_info(pre[j].0, pre[j].1);
                assert(w[k] == wp[k]);
            } else {
                assert(w[wp.len() as int] == spec_viewer_info(es[n].0, es[n].1));
            }
        }
    }
}

/// Of entries by increasing index, `watching_infos` lists its descriptions by increasing id.
proof fn lemma_watching_infos_order<S>(es: Seq<(usize, ViewerData<S>)>, key: Option<usize>)
    requires
        forall|k: int, l: int| 0 <= k < l < es.len() ==> #[trigger] es[k].0 < #[trigger] es[l].0,
    ensures
        forall|k: int, l: int|
            0 <= k < l < watching_infos(es, key).len() ==> #[trigger] watching_infos(es, key)[k].id
                < #[trigger] watching_infos(es, key)[l].id,
    decreases es.len(),
{
    if es.len() > 0 {
        let pre = es.drop_last();
        assert forall|k: int, l: int| 0 <= k < l < pre.len() implies #[trigger] pre[k].0 < #[trigger] pre[l].0 by {
            assert(pre[k] == es[k] && pre[l] == es[l]);
        }
        lemma_watching_infos_order(pre, key);
        lemma_watching_infos_source(pre, key);
        let wp = watching_infos(pre, key);
        let w = watching_infos(es, key);
        let n = es.len() - 1;
        assert forall|k: int| 0 <= k < wp.len() implies #[trigger] wp[k].id < es[n].0 as u64 by {
            let j = choose|j: int|
                0 <= j < pre.len() && pre[j].1.watching == key && wp[k] == spec_viewer_info(
                    pre[j].0,
                    pre[j].1,
                );
            assert(pre[j] == es[j]);
            assert(es[j].0 < es[n].0);
        }
        assert forall|k: int, l: int| 0 <= k < l < w.len() implies #[trigger] w[k].id < #[trigger] w[l].id by {
            if l < wp.len() {
                assert(w[k] == wp[k] && w[l] == wp[l]);
            } else {
                assert(w[k] == wp[k]);
                assert(w[l] == spec_viewer_info(es[n].0, es[n].1));
            }
        }
    }
}

/// The connected viewers that watch `key`, described by increasing index, are what
/// `watching_infos` lists of the viewer entries.
proof fn lemma_watching_infos_of_app<S>(app: AppState<S>, key: Option<usize>)
    requires
        app.wf(),
    ensures
        ({
            let vs = watching_infos(app.viewer_entries(), key);
            &&& forall|k: int|
                #![trigger vs[k]]
                0 <= k < vs.len() ==> {
                    let i = vs[k].id as usize;
                    &&& app.viewers().contains_key(i)
                    &&& app.viewers()[i].watching == key
                    &&& vs[k] == spec_viewer_info(i, app.viewers()[i])
                }
            &&& forall|i: usize|
                #[trigger] app.viewers().contains_key(i) && app.viewers()[i].watching == key
                    ==> exists|k: int| 0 <= k < vs.len() && vs[k] == spec_viewer_info(i, app.viewers()[i])
            &&& forall|k: int, l: int| 0 <= k < l < vs.len() ==> #[trigger] vs[k].id < #[trigger] vs[l].id
        }),
{
    app.lemma_entries_in_key_order();
    let es = app.viewer_entries();
    lemma_watching_infos_order(es, key);
    let vs = watching_infos(es, key);
    assert forall|k: int|
        #![trigger vs[k]]
        0 <= k < vs.len() implies {
            let i = vs[k].id as usize;
            &&& app.viewers().contains_key(i)
            &&& app.viewers()[i].watching == key
            &&& vs[k] == spec_viewer_info(i, app.viewers()[i])
        } by {
        lemma_watching_infos_source(es, key);
        let j = choose|j: int|
            0 <= j < es.len() && es[j].1.watching == key && vs[k] == spec_viewer_info(es[j].0, es[j].1);
        assert(app.viewers().contains_key(es[j].0) && app.viewers()[es[j].0] == es[j].1);
    }
    assert forall|i: usize|
        #[trigger] app.viewers().contains_key(i) && app.viewers()[i].watching == key implies exists|k: int|
            0 <= k < vs.len() && vs[k] == spec_viewer_info(i, app.viewers()[i]) by {
        lemma_watching_infos_cover(es, key);
        let j = choose|j: int| 0 <= j < es.len() && es[j].0 == i;
        assert(es[j].1 == app.viewers()[i]);
        assert(es[j].1.watching == key);
    }
}

/// A request for the viewers of a streamer (or, with no streamer named, for the viewers
/// watching none) is answered back to the controller with exactly the connected viewers
/// that watch it, each described, by increasing index.
pub proof fn lemma_listed_viewers_watch_the_streamer<S>(
    app: AppState<S>,
    session_id: usize,
    streamer_id: Option<u64>,
)
    requires
        app.wf(),
    ensures
        ({
            let out = spec_handle_message(app, session_id, Some(ControllerCommand::ListViewers { streamer_id }));
            let key = match streamer_id {
                Some(s) => Some(s as usize),
                None => None,
            };
            &&& out.close is None
            &&& out.deliveries.len() == 1
            &&& out.deliveries[0].target == Target::Back
            &&& out.deliveries[0].on_failure == Some(CloseCause::ViewerListNotSent)
            &&& out.deliveries[0].message is ListViewersResponse
            &&& {
                let vs = out.deliveries[0].message->ListViewersResponse_viewers;
                &&& forall|k: int|
                    #![trigger vs[k]]
                    0 <= k < vs.len() ==> {
                        let i = vs[k].id as usize;
                        &&& app.viewers().contains_key(i)
                        &&& app.viewers()[i].watching == key
                        &&& vs[k] == spec_viewer_info(i, app.viewers()[i])
                    }
                &&& forall|i: usize|
                    #[trigger] app.viewers().contains_key(i) && app.viewers()[i].watching == key
                        ==> exists|k: int| 0 <= k < vs.len() && vs[k] == spec_viewer_info(i, app.viewers()[i])
                &&& forall|k: int, l: int| 0 <= k < l < vs.len() ==> #[trigger] vs[k].id < #[trigger] vs[l].id
            }
        }),
{
    let key = match streamer_id {
        Some(s) => Some(s as usize),
        None => None,
    };
    lemma_watching_infos_of_app(app, key);
    let out = spec_handle_message(app, session_id, Some(ControllerCommand::ListViewers { streamer_id }));
    assert(key == streamer_key(streamer_id));
    assert(out.deliveries[0].message->ListViewersResponse_viewers == watching_infos(app.viewer_entries(), key));
}

/// The info list of all streamers has one entry per connected streamer, describing it, by
/// increasing index.
proof fn lemma_streamer_infos_cover<S>(app: AppState<S>)
    requires
        app.wf(),
    ensures
        ({
            let ss = streamer_infos(app.streamer_entries());
            &&& ss.len() == app.streamers().len()
            &&& forall|i: usize|
                #[trigger] app.streamers().contains_key(i) ==> exists|k: int|
                    0 <= k < ss.len() && ss[k] == spec_streamer_info(i, app.streamers()[i])
            &&& forall|k: int|
                #![trigger ss[k]]
                0 <= k < ss.len() ==> app.streamers().contains_key(ss[k].id as usize) && ss[k]
                    == spec_streamer_info(ss[k].id as usize, app.streamers()[ss[k].id as usize])
            &&& forall|k: int, l: int| 0 <= k < l < ss.len() ==> #[trigger] ss[k].id < #[trigger] ss[l].id
        }),
{
    app.lemma_entries_in_key_order();
    let es = app.streamer_entries();
    let ss = streamer_infos(es);
    assert forall|i: usize| #[trigger] app.streamers().contains_key(i) implies exists|k: int|
        0 <= k < ss.len() && ss[k] == spec_streamer_info(i, app.streamers()[i]) by {
        let k = choose|k: int| 0 <= k < es.len() && es[k].0 == i;
        assert(ss[k] == spec_streamer_info(es[k].0, es[k].1));
    }
    assert forall|k: int| #![trigger ss[k]] 0 <= k < ss.len() implies app.streamers().contains_key(
        ss[k].id as usize,
    ) && ss[k] == spec_streamer_info(ss[k].id as usize, app.streamers()[ss[k].id as usize]) by {
        assert(ss[k] == spec_streamer_info(es[k].0, es[k].1));
        assert(app.streamers().contains_key(es[k].0) && app.streamers()[es[k].0] == es[k].1);
    }
    assert forall|k: int, l: int| 0 <= k < l < ss.len() implies #[trigger] ss[k].id < #[trigger] ss[l].id by {
        assert(es[k].0 < es[l].0);
    }
}

/// A new controller is greeted, back on its own connection, with its index, one entry
/// for each connected streamer by increasing index, and the number of viewers; a request
/// for the streamers is answered back with the same list. Neither closes, unless its
/// answer cannot be sent.
pub proof fn lemma_streamers_are_listed<S>(app: AppState<S>, session_id: usize)
    requires
        app.wf(),
    ensures
        ({
            let hello = spec_handle_connection(app, session_id);
            let list = spec_handle_message(app, session_id, Some(ControllerCommand::ListStreamers));
            &&& hello.close is None
            &&& hello.deliveries.len() == 1
            &&& hello.deliveries[0].target == Target::Back
            &&& hello.deliveries[0].on_failure == Some(CloseCause::ReadyNotSent)
            &&& hello.deliveries[0].message is Ready
            &&& hello.deliveries[0].message->Ready_id == session_id as u64
            &&& hello.deliveries[0].message->Ready_viewer_count == app.viewers().len() as u32
            &&& list.close is None
            &&& list.deliveries.len() == 1
            &&& list.deliveries[0].target == Target::Back
            &&& list.deliveries[0].on_failure == Some(CloseCause::StreamerListNotSent)
            &&& list.deliveries[0].message is ListStreamersResponse
            &&& list.deliveries[0].message->ListStreamersResponse_streamers
                == hello.deliveries[0].message->Ready_streamers
            &&& {
                let ss = list.deliveries[0].message->ListStreamersResponse_streamers;
                &&& ss.len() == app.streamers().len()
                &&& forall|i: usize|
                    #[trigger] app.streamers().contains_key(i) ==> exists|k: int|
                        0 <= k < ss.len() && ss[k] == spec_streamer_info(i, app.streamers()[i])
                &&& forall|k: int|
                    #![trigger ss[k]]
                    0 <= k < ss.len() ==> app.streamers().contains_key(ss[k].id as usize) && ss[k]
                        == spec_streamer_info(ss[k].id as usize, app.streamers()[ss[k].id as usize])
                &&& forall|k: int, l: int| 0 <= k < l < ss.len() ==> #[trigger] ss[k].id < #[trigger] ss[l].id
            }
        }),
{
    lemma_streamer_infos_cover(app);
    let list = spec_handle_message(app, session_id, Some(ControllerCommand::ListStreamers));
    assert(list.deliveries[0].message->ListStreamersResponse_streamers == streamer_infos(
        app.streamer_entries(),
    ));
}

fn send_to_streamer<S>(
    app_data: &AppState<S>,
    out: &mut Outcome,
    streamer_id: u64,
    message: ServerMessage,
    cause: CloseCause,
)
    requires
        app_data.wf(),
    ensures
        final(out)@ == (OutcomeModel {
            deliveries: old(out)@.deliveries + to_streamer(*app_data, streamer_id, message@, cause),
            close: old(out)@.close,
        }),
{
    let ghost before = out@;
    let index = streamer_id as usize;
    if app_data.get_streamer_session(index).is_some() {
        out.deliver(Target::To(SessionId::new(Role::Streamer, index)), message, Some(cause));
    }
    assert(out@.deliveries =~= before.deliveries + to_streamer(
        *app_data,
        streamer_id,
        message@,
        cause,
    ));
}

fn update_watching<S>(
    app_data: &mut AppState<S>,
    viewer_id: u64,
    streamer_id: Option<u64>,
) -> (res: Outcome)
    requires
        old(app_data).wf(),
    ensures
        final(app_data).wf(),
        res@ == spec_handle_message(
            *old(app_data),
            0,
            Some(ControllerCommand::UpdateWatching { viewer_id, streamer_id }),
        ),
        final(app_data).viewers() == spec_viewers_after(
            old(app_data).viewers(),
            Some(ControllerCommand::UpdateWatching { viewer_id, streamer_id }),
        ),
        final(app_data).streamers() == old(app_data).streamers(),
        final(app_data).controllers() == old(app_data).controllers(),
        forall|r: Role| #[trigger] final(app_data).next_index(r) == old(app_data).next_index(r),
{
    let ghost spec = spec_handle_message(
        *old(app_data),
        0,
        Some(ControllerCommand::UpdateWatching { viewer_id, streamer_id }),
    );
    let mut out = Outcome::empty();
    let index = viewer_id as usize;
    let key = match streamer_id {
        Some(s) => Some(s as usize),
        None => None,
    };
    if !app_data.update_viewer_watching(index, key) {
        assert(out@.deliveries =~= spec.deliveries);
        return out;
    }
    match streamer_id {
        Some(s) => {
            let message = ServerMessage::CreateRtcOffer {
                session: Some(ProtoSession { id: viewer_id, session_type: SessionType::Viewer }),
            };
            send_to_streamer(app_data, &mut out, s, message, CloseCause::UpdatedViewerNotSent);
        },
        None => {
            if app_data.get_viewer_session(index).is_some() {
                out.deliver(
                    Target::To(SessionId::new(Role::Viewer, index)),
                    ServerMessage::DisconnectStreamer,
                    Some(CloseCause::ViewerDisconnectNotSent),
                );
            }
        },
    }
    assert(out@.deliveries =~= spec.deliveries);
    out
}

/// Handle a message from a controller session.
pub fn handle_message<S>(session_id: usize, app_data: &mut AppState<S>, command: Option<ControllerCommand>) -> (res: Outcome)
    requires
        old(app_data).wf(),
    ensures
        final(app_data).wf(),
        res@ == spec_handle_message(*old(app_data), session_id, command),
        final(app_data).viewers() == spec_viewers_after(old(app_data).viewers(), command),
        final(app_data).streamers() == old(app_data).streamers(),
        final(app_data).controllers() == old(app_data).controllers(),
        forall|r: Role| #[trigger] final(app_data).next_index(r) == old(app_data).next_index(r),
{
    let ghost spec = spec_handle_message(*app_data, session_id, command);
    let me = ProtoSession { id: session_id as u64, session_type: SessionType::Controller };
    let mut out = Outcome::empty();
    match command {
        None => {
            return Outcome::closing(CloseCause::InvalidMessageFormat);
        },
        Some(ControllerCommand::Unsupported) => {
            return Outcome::closing(CloseCause::UnsupportedCommand);
        },
        Some(ControllerCommand::RequestRtcOffer { streamer_id }) => {
            let message = ServerMessage::CreateRtcOffer { session: Some(me) };
            send_to_streamer(
                app_data,
                &mut out,
                streamer_id,
                message,
                CloseCause::RtcOfferRequestNotSent,
            );
        },
        Some(ControllerCommand::RequestChangeQuality { streamer_id, quality }) => {
            let message = ServerMessage::ChangeQuality { quality };
            send_to_streamer(
                app_data,
                &mut out,
                streamer_id,
                message,
                CloseCause::ChangeQualityNotSent,
            );
        },
        Some(ControllerCommand::RequestZoom { streamer_id, zoom_bits }) => {
            let message = ServerMessage::Zoom { zoom_bits };
            send_to_streamer(app_data, &mut out, streamer_id, message, CloseCause::ZoomRequestNotSent);
        },
        Some(ControllerCommand::ListStreamers) => {
            let message = ServerMessage::ListStreamersResponse {
                streamers: app_data.get_all_proto_streamer_sessions(),
            };
            out.deliver(Target::Back, message, Some(CloseCause::StreamerListNotSent));
        },
        Some(ControllerCommand::ListViewers { streamer_id }) => {
            let key = match streamer_id {
                Some(s) => Some(s as usize),
                None => None,
            };
            let message = ServerMessage::ListViewersResponse {
                viewers: app_data.get_proto_viewer_sessions_by_streamer(key),
            };
            out.deliver(Target::Back, message, Some(CloseCause::ViewerListNotSent));
        },
        Some(ControllerCommand::ListAllViewers) => {
            let message = ServerMessage::ListViewersResponse {
                viewers: app_data.get_all_proto_viewer_sessions(),
            };
            out.deliver(Target::Back, message, Some(CloseCause::AllViewersListNotSent));
        },
        Some(ControllerCommand::IceCandidate { candidate, session }) => {
            if let Some(s) = session {
                if s.session_type == SessionType::Streamer {
                    let message = ServerMessage::IceCandidate { candidate, session: Some(me) };
                    send_to_streamer(
                        app_data,
                        &mut out,
                        s.id,
                        message,
                        CloseCause::IceCandidateNotSent,
                    );
                }
            }
        },
        Some(ControllerCommand::UpdateWatching { viewer_id, streamer_id }) => {
            return update_watching(app_data, viewer_id, streamer_id);
        },
    }
    assert(out@.deliveries =~= spec.deliveries);
    out
}

/// Everything handling a controller sends goes back to it, or to a session that is
/// connected when the message arrives.
pub proof fn lemma_deliveries_reach_connected<S>(
    app: AppState<S>,
    session_id: usize,
    command: Option<ControllerCommand>,
)
    ensures
        forall|k: int|
            0 <= k < spec_handle_connection(app, session_id).deliveries.len() ==> reaches_connected(
                app,
                #[trigger] spec_handle_connection(app, session_id).deliveries[k],
            ),
        forall|k: int|
            0 <= k < spec_handle_message(app, session_id, command).deliveries.len()
                ==> reaches_connected(
                app,
                #[trigger] spec_handle_message(app, session_id, command).deliveries[k],
            ),
{
    match command {
        Some(ControllerCommand::RequestRtcOffer { streamer_id }) => {
            SessionId::lemma_parts(Role::Streamer, streamer_id as usize);
        },
        Some(ControllerCommand::RequestChangeQuality { streamer_id, .. }) => {
            SessionId::lemma_parts(Role::Streamer, streamer_id as usize);
        },
        Some(ControllerCommand::RequestZoom { streamer_id, .. }) => {
            SessionId::lemma_parts(Role::Streamer, streamer_id as usize);
        },
        Some(ControllerCommand::IceCandidate { session, .. }) => {
            if let Some(s) = session {
                SessionId::lemma_parts(Role::Streamer, s.id as usize);
            }
        },
        Some(ControllerCommand::UpdateWatching { viewer_id, streamer_id }) => {
            SessionId::lemma_parts(Role::Viewer, viewer_id as usize);
            if let Some(s) = streamer_id {
                SessionId::lemma_parts(Role::Streamer, s as usize);
            }
        },
        _ => {},
    }
}

} // verus!
