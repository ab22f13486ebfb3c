//! The binary protocol's messages, as values the session handlers read and write, and what
//! a handler asks of the connection layer: messages to deliver, and when to close.
//!
//! Encoding these messages on the wire is the connection layer's work; the handlers only
//! decide which message goes where.
use vstd::prelude::*;
use vstd::string::StringExecFns;
use crate::app_state::{
    watching_sessions, AppState, ControllerData, ProtoVideoTransform, Role, SessionId,
    StreamerSessionInfo, ViewerData, ViewerSessionInfo, session_pairs,
};

verus! {

/// The kind of session that a message names.
#[derive(Debug, Clone, Copy, PartialEq, Eq, Structural)]
pub enum SessionType {
    Streamer,
    Controller,
    Viewer,
    /// A type code that names none of the three.
    Unrecognized,
}

/// A session named in a message: its index and its kind.
#[derive(Debug, Clone, Copy, PartialEq, Eq, Structural)]
pub struct ProtoSession {
    pub id: u64,
    pub session_type: SessionType,
}

/// A message from a streamer.
pub enum StreamerCommand {
    /// The streamer's answer to a request for an offer, for `session`.
    RtcOfferResponse { offer: String, session: Option<ProtoSession> },
    /// The streamer's new video transform.
    RequestVideoTransform { video_transform: Option<ProtoVideoTransform> },
    /// The streamer's battery level.
    UpdateBatteryLevel { battery_level: u32 },
    /// An ICE candidate for `session`.
    IceCandidate { candidate: String, session: Option<ProtoSession> },
    /// The streamer's zoom, as the bits of an `f32`.
    RequestZoom { zoom_bits: u32 },
}

/// A message from a viewer.
pub enum ViewerCommand {
    /// The viewer's answer for streamer `streamer_id`.
    RtcAnswerResponse { streamer_id: u64, answer: String },
    /// An ICE candidate for `session`.
    IceCandidate { candidate: String, session: Option<ProtoSession> },
}

/// A message from a controller.
pub enum ControllerCommand {
    RequestRtcOffer { streamer_id: u64 },
    RequestChangeQuality { streamer_id: u64, quality: i32 },
    ListStreamers,
    ListViewers { streamer_id: Option<u64> },
    ListAllViewers,
    IceCandidate { candidate: String, session: Option<ProtoSession> },
    RequestZoom { streamer_id: u64, zoom_bits: u32 },
    UpdateWatching { viewer_id: u64, streamer_id: Option<u64> },
    /// A message without a command, or with one that controllers may not send.
    Unsupported,
}

/// A message from the server to a client.
#[derive(Debug, Clone, PartialEq, Eq)]
pub enum ServerMessage {
    /// A streamer connected (to controllers).
    NewStreamerSession { session: StreamerSessionInfo },
    /// A viewer connected (to controllers).
    NewViewerSession { session: ViewerSessionInfo },
    /// A session disconnected (to controllers).
    DropSession { session: ProtoSession },
    /// A streamer's offer, with its video transform (to a viewer or a controller).
    RequestRtcAnswer {
        offer: String,
        streamer_id: u64,
        video_transform: Option<ProtoVideoTransform>,
    },
    /// A streamer's new video transform.
    UpdateVideoTransform { streamer_id: u64, video_transform: Option<ProtoVideoTransform> },
    /// A streamer's battery level (to controllers).
    BatteryLevel { streamer_id: u64, battery_level: u32 },
    /// An ICE candidate from `session`.
    IceCandidate { candidate: String, session: Option<ProtoSession> },
    /// A streamer's zoom (to controllers).
    UpdateZoom { streamer_id: u64, zoom_bits: u32 },
    /// The streamer a viewer watched is gone (to a viewer).
    DisconnectStreamer,
    /// A viewer's answer (to a streamer).
    RtcAnswer { session: Option<ProtoSession>, answer: String },
    /// Create an offer for `session` (to a streamer).
    CreateRtcOffer { session: Option<ProtoSession> },
    /// Switch to a quality preset (to a streamer).
    ChangeQuality { quality: i32 },
    /// Zoom to the given level (to a streamer).
    Zoom { zoom_bits: u32 },
    /// The greeting to a new controller: its index, the streamers, the number of viewers.
    Ready { id: u64, streamers: Vec<StreamerSessionInfo>, viewer_count: u32 },
    /// The streamers (to a controller).
    ListStreamersResponse { streamers: Vec<StreamerSessionInfo> },
    /// Viewers (to a controller).
    ListViewersResponse { viewers: Vec<ViewerSessionInfo> },
}

/// The content of a [`ServerMessage`]: lists become sequences.
pub enum ServerMessageModel {
    NewStreamerSession { session: StreamerSessionInfo },
    NewViewerSession { session: ViewerSessionInfo },
    DropSession { session: ProtoSession },
    RequestRtcAnswer {
        offer: String,
        streamer_id: u64,
        video_transform: Option<ProtoVideoTransform>,
    },
    UpdateVideoTransform { streamer_id: u64, video_transform: Option<ProtoVideoTransform> },
    BatteryLevel { streamer_id: u64, battery_level: u32 },
    IceCandidate { candidate: String, session: Option<ProtoSession> },
    UpdateZoom { streamer_id: u64, zoom_bits: u32 },
    DisconnectStreamer,
    RtcAnswer { session: Option<ProtoSession>, answer: String },
    CreateRtcOffer { session: Option<ProtoSession> },
    ChangeQuality { quality: i32 },
    Zoom { zoom_bits: u32 },
    Ready { id: u64, streamers: Seq<StreamerSessionInfo>, viewer_count: u32 },
    ListStreamersResponse { streamers: Seq<StreamerSessionInfo> },
    ListViewersResponse { viewers: Seq<ViewerSessionInfo> },
}

impl View for ServerMessage {
    type V = ServerMessageModel;

    open spec fn view(&self) -> ServerMessageModel {
        match self {
            ServerMessage::NewStreamerSession { session } => ServerMessageModel::NewStreamerSession {
                session: *session,
            },
            ServerMessage::NewViewerSession { session } => ServerMessageModel::NewViewerSession {
                session: *session,
            },
            ServerMessage::DropSession { session } => ServerMessageModel::DropSession {
                session: *session,
            },
            ServerMessage::RequestRtcAnswer { offer, streamer_id, video_transform } =>
                ServerMessageModel::RequestRtcAnswer {
                offer: *offer,
                streamer_id: *streamer_id,
                video_transform: *video_transform,
            },
            ServerMessage::UpdateVideoTransform { streamer_id, video_transform } =>
                ServerMessageModel::UpdateVideoTransform {
                streamer_id: *streamer_id,
                video_transform: *video_transform,
            },
            ServerMessage::BatteryLevel { streamer_id, battery_level } =>
                ServerMessageModel::BatteryLevel {
                streamer_id: *streamer_id,
                battery_level: *battery_level,
            },
            ServerMessage::IceCandidate { candidate, session } => ServerMessageModel::IceCandidate {
                candidate: *candidate,
                session: *session,
            },
            ServerMessage::UpdateZoom { streamer_id, zoom_bits } => ServerMessageModel::UpdateZoom {
                streamer_id: *streamer_id,
                zoom_bits: *zoom_bits,
            },
            ServerMessage::DisconnectStreamer => ServerMessageModel::DisconnectStreamer,
            ServerMessage::RtcAnswer { session, answer } => ServerMessageModel::RtcAnswer {
                session: *session,
                answer: *answer,
            },
            ServerMessage::CreateRtcOffer { session } => ServerMessageModel::CreateRtcOffer {
                session: *session,
            },
            ServerMessage::ChangeQuality { quality } => ServerMessageModel::ChangeQuality {
                quality: *quality,
            },
            ServerMessage::Zoom { zoom_bits } => ServerMessageModel::Zoom { zoom_bits: *zoom_bits },
            ServerMessage::Ready { id, streamers, viewer_count } => ServerMessageModel::Ready {
                id: *id,
                streamers: streamers@,
                viewer_count: *viewer_count,
            },
            ServerMessage::ListStreamersResponse { streamers } =>
                ServerMessageModel::ListStreamersResponse { streamers: streamers@ },
            ServerMessage::ListViewersResponse { viewers } =>
                ServerMessageModel::ListViewersResponse { viewers: viewers@ },
        }
    }
}

/// Why a handler closes the connection; each cause has its close code and description.
#[derive(Debug, Clone, Copy, PartialEq, Eq, Structural)]
pub enum CloseCause {
    /// Unsupported: the message could not be decoded.
    UndecodableMessage,
    /// Unsupported: a controller sent a message in an invalid format.
    InvalidMessageFormat,
    /// Unsupported: a controller sent a command it may not send.
    UnsupportedCommand,
    /// Error: the streamer is gone while answering an offer request.
    NoStreamerForRtcAnswer,
    /// Error: the streamer is gone while reporting its video transform.
    NoStreamerForVideoTransform,
    /// Error: the streamer is gone while reporting its battery level.
    NoStreamerForBatteryLevel,
    /// Error: the greeting to a new controller could not be sent.
    ReadyNotSent,
    /// Error: an offer request could not be sent to the streamer.
    RtcOfferRequestNotSent,
    /// Error: a quality request could not be sent to the streamer.
    ChangeQualityNotSent,
    /// Error: the streamers list could not be sent.
    StreamerListNotSent,
    /// Error: a viewers list could not be sent.
    ViewerListNotSent,
    /// Error: the list of all viewers could not be sent.
    AllViewersListNotSent,
    /// Error: an ICE candidate could not be sent to the streamer.
    IceCandidateNotSent,
    /// Error: a zoom request could not be sent to the streamer.
    ZoomRequestNotSent,
    /// Error: the streamer could not be asked for an offer for a viewer.
    UpdatedViewerNotSent,
    /// Error: a viewer could not be told to disconnect from its streamer.
    ViewerDisconnectNotSent,
}

/// The WebSocket close code of a cause: 1003 (unsupported data) where the peer sent what
/// cannot be handled, 1011 (internal error) where the server could not go on.
pub open spec fn close_code(c: CloseCause) -> u16 {
    match c {
        CloseCause::UndecodableMessage
        | CloseCause::InvalidMessageFormat
        | CloseCause::UnsupportedCommand => 1003,
        _ => 1011,
    }
}

/// The text that goes with a cause in the close frame.
pub open spec fn close_description(c: CloseCause) -> Seq<char> {
    match c {
        CloseCause::UndecodableMessage => "Failed to decode message"@,
        CloseCause::InvalidMessageFormat => "Invalid message format"@,
        CloseCause::UnsupportedCommand => "Unsupported command"@,
        CloseCause::NoStreamerForRtcAnswer => "Failed to find streamer session for RTC answer response"@,
        CloseCause::NoStreamerForVideoTransform => "Failed to find streamer session for video transform request"@,
        CloseCause::NoStreamerForBatteryLevel => "Failed to find streamer session for battery level update"@,
        CloseCause::ReadyNotSent => "Failed to send ready message"@,
        CloseCause::RtcOfferRequestNotSent => "Failed to send RTC offer request"@,
        CloseCause::ChangeQualityNotSent => "Failed to send change quality request"@,
        CloseCause::StreamerListNotSent => "Failed to send list of streamers"@,
        CloseCause::ViewerListNotSent => "Failed to send list of viewers"@,
        CloseCause::AllViewersListNotSent => "Failed to send list of all viewers"@,
        CloseCause::IceCandidateNotSent => "Failed to send ICE candidate"@,
        CloseCause::ZoomRequestNotSent => "Failed to send zoom level change request"@,
        CloseCause::UpdatedViewerNotSent => "Failed to send updated viewer list"@,
        CloseCause::ViewerDisconnectNotSent => "Failed to request viewer to disconnect from streamer"@,
    }
}

impl CloseCause {
    /// The close code sent with this cause.
    pub fn code(&self) -> (res: u16)
        ensures
            res == close_code(*self),
    {
        match self {
            CloseCause::UndecodableMessage
            | CloseCause::InvalidMessageFormat
            | CloseCause::UnsupportedCommand => 1003,
            _ => 1011,
        }
    }

    /// The description sent with this cause.
    pub fn description(&self) -> (res: String)
        ensures
            res@ == close_description(*self),
    {
        let text: &str = match self {
            CloseCause::UndecodableMessage => "Failed to decode message",
            CloseCause::InvalidMessageFormat => "Invalid message format",
            CloseCause::UnsupportedCommand => "Unsupported command",
            CloseCause::NoStreamerForRtcAnswer => "Failed to find streamer session for RTC answer response",
            CloseCause::NoStreamerForVideoTransform => "Failed to find streamer session for video transform request",
            CloseCause::NoStreamerForBatteryLevel => "Failed to find streamer session for battery level update",
            CloseCause::ReadyNotSent => "Failed to send ready message",
            CloseCause::RtcOfferRequestNotSent => "Failed to send RTC offer request",
            CloseCause::ChangeQualityNotSent => "Failed to send change quality request",
            CloseCause::StreamerListNotSent => "Failed to send list of streamers",
            CloseCause::ViewerListNotSent => "Failed to send list of viewers",
            CloseCause::AllViewersListNotSent => "Failed to send list of all viewers",
            CloseCause::IceCandidateNotSent => "Failed to send ICE candidate",
            CloseCause::ZoomRequestNotSent => "Failed to send zoom level change request",
            CloseCause::UpdatedViewerNotSent => "Failed to send updated viewer list",
            CloseCause::ViewerDisconnectNotSent => "Failed to request viewer to disconnect from streamer",
        };
        String::from_str(text)
    }
}

/// Where a message goes.
#[derive(Debug, Clone, Copy, PartialEq, Eq, Structural)]
pub enum Target {
    /// Back to the session being handled.
    Back,
    /// To the stored session with this id.
    To(SessionId),
}

/// A message to deliver; when `on_failure` is set and sending fails, the handler closes
/// the connection with that cause and delivers nothing more.
#[derive(Debug, Clone, PartialEq, Eq)]
pub struct Delivery {
    pub target: Target,
    pub message: ServerMessage,
    pub on_failure: Option<CloseCause>,
}

/// The content of a [`Delivery`].
pub struct DeliveryModel {
    pub target: Target,
    pub message: ServerMessageModel,
    pub on_failure: Option<CloseCause>,
}

impl View for Delivery {
    type V = DeliveryModel;

    open spec fn view(&self) -> DeliveryModel {
        DeliveryModel { target: self.target, message: self.message@, on_failure: self.on_failure }
    }
}

/// What a handler decided: messages to deliver in order, then close with `close` if set.
pub struct Outcome {
    pub deliveries: Vec<Delivery>,
    pub close: Option<CloseCause>,
}

/// The content of an [`Outcome`].
pub struct OutcomeModel {
    pub deliveries: Seq<DeliveryModel>,
    pub close: Option<CloseCause>,
}

impl View for Outcome {
    type V = OutcomeModel;

    open spec fn view(&self) -> OutcomeModel {
        OutcomeModel {
            deliveries: self.deliveries@.map_values(|d: Delivery| d@),
            close: self.close,
        }
    }
}

/// A delivery whose failure does not close the connection.
pub open spec fn plain(target: Target, message: ServerMessageModel) -> DeliveryModel {
    DeliveryModel { target, message, on_failure: None }
}

impl Outcome {
    /// Nothing to deliver, nothing to close.
    pub fn empty() -> (res: Self)
        ensures
            res@ == (OutcomeModel { deliveries: Seq::empty(), close: None }),
    {
        let res = Outcome { deliveries: Vec::new(), close: None };
        assert(res@.deliveries =~= Seq::<DeliveryModel>::empty());
        res
    }

    /// Closing with `cause`, delivering nothing.
    pub fn closing(cause: CloseCause) -> (res: Self)
        ensures
            res@ == (OutcomeModel { deliveries: Seq::empty(), close: Some(cause) }),
    {
        let res = Outcome { deliveries: Vec::new(), close: Some(cause) };
        assert(res@.deliveries =~= Seq::<DeliveryModel>::empty());
        res
    }

    /// Adds a delivery after the others.
    pub fn deliver(&mut self, target: Target, message: ServerMessage, on_failure: Option<CloseCause>)
        ensures
            final(self)@ == (OutcomeModel {
                deliveries: old(self)@.deliveries.push(
                    DeliveryModel { target, message: message@, on_failure },
                ),
                close: old(self)@.close,
            }),
    {
        let ghost before = self.deliveries@;
        self.deliveries.push(Delivery { target, message, on_failure });
        assert(self.deliveries@.map_values(|d: Delivery| d@) =~= before.map_values(
            |d: Delivery| d@,
        ).push(DeliveryModel { target, message: message@, on_failure }));
    }
}

fn duplicate_streamers(v: &Vec<StreamerSessionInfo>) -> (res: Vec<StreamerSessionInfo>)
    ensures
        res@ == v@,
{
    let mut res: Vec<StreamerSessionInfo> = Vec::new();
    let mut k: usize = 0;
    while k < v.len()
        invariant
            k <= v@.len(),
            res@ == v@.take(k as int),
        decreases v@.len() - k,
    {
        res.push(v[k].duplicate());
        assert(v@.take(k + 1) =~= v@.take(k as int).push(v@[k as int]));
        k = k + 1;
    }
    assert(v@.take(k as int) =~= v@);
    res
}

fn duplicate_viewers(v: &Vec<ViewerSessionInfo>) -> (res: Vec<ViewerSessionInfo>)
    ensures
        res@ == v@,
{
    let mut res: Vec<ViewerSessionInfo> = Vec::new();
    let mut k: usize = 0;
    while k < v.len()
        invariant
            k <= v@.len(),
            res@ == v@.take(k as int),
        decreases v@.len() - k,
    {
        res.push(v[k].duplicate());
        assert(v@.take(k + 1) =~= v@.take(k as int).push(v@[k as int]));
        k = k + 1;
    }
    assert(v@.take(k as int) =~= v@);
    res
}

impl ServerMessage {
    /// A copy of the message.
    pub fn duplicate(&self) -> (res: Self)
        ensures
            res@ == self@,
    {
        match self {
            ServerMessage::NewStreamerSession { session } => ServerMessage::NewStreamerSession {
                session: session.duplicate(),
            },
            ServerMessage::NewViewerSession { session } => ServerMessage::NewViewerSession {
                session: session.duplicate(),
            },
            ServerMessage::DropSession { session } => ServerMessage::DropSession {
                session: *session,
            },
            ServerMessage::RequestRtcAnswer { offer, streamer_id, video_transform } =>
                ServerMessage::RequestRtcAnswer {
                offer: offer.clone(),
                streamer_id: *streamer_id,
                video_transform: *video_transform,
            },
            ServerMessage::UpdateVideoTransform { streamer_id, video_transform } =>
                ServerMessage::UpdateVideoTransform {
                streamer_id: *streamer_id,
                video_transform: *video_transform,
            },
            ServerMessage::BatteryLevel { streamer_id, battery_level } =>
                ServerMessage::BatteryLevel {
                streamer_id: *streamer_id,
                battery_level: *battery_level,
            },
            ServerMessage::IceCandidate { candidate, session } => ServerMessage::IceCandidate {
                candidate: candidate.clone(),
                session: *session,
            },
            ServerMessage::UpdateZoom { streamer_id, zoom_bits } => ServerMessage::UpdateZoom {
                streamer_id: *streamer_id,
                zoom_bits: *zoom_bits,
            },
            ServerMessage::DisconnectStreamer => ServerMessage::DisconnectStreamer,
            ServerMessage::RtcAnswer { session, answer } => ServerMessage::RtcAnswer {
                session: *session,
                answer: answer.clone(),
            },
            ServerMessage::CreateRtcOffer { session } => ServerMessage::CreateRtcOffer {
                session: *session,
            },
            ServerMessage::ChangeQuality { quality } => ServerMessage::ChangeQuality {
                quality: *quality,
            },
            ServerMessage::Zoom { zoom_bits } => ServerMessage::Zoom { zoom_bits: *zoom_bits },
            ServerMessage::Ready { id, streamers, viewer_count } => ServerMessage::Ready {
                id: *id,
                streamers: duplicate_streamers(streamers),
                viewer_count: *viewer_count,
            },
            ServerMessage::ListStreamersResponse { streamers } =>
                ServerMessage::ListStreamersResponse { streamers: duplicate_streamers(streamers) },
            ServerMessage::ListViewersResponse { viewers } =>
                ServerMessage::ListViewersResponse { viewers: duplicate_viewers(viewers) },
        }
    }
}

/// `message` to every controller, by increasing index.
pub open spec fn to_controllers<S>(app: AppState<S>, message: ServerMessageModel) -> Seq<DeliveryModel> {
    app.controller_entries().map_values(
        |e: (usize, ControllerData<S>)|
            plain(Target::To(SessionId::spec_new(Role::Controller, e.0)), message),
    )
}

/// `message` to every viewer watching `streamer`, by increasing index.
pub open spec fn to_watchers<S>(app: AppState<S>, streamer: usize, message: ServerMessageModel) -> Seq<
    DeliveryModel,
> {
    watching_sessions(app.viewer_entries(), Some(streamer)).map_values(
        |p: (usize, S)| plain(Target::To(SessionId::spec_new(Role::Viewer, p.0)), message),
    )
}

/// Adds `message` for every controller to the deliveries.
pub fn deliver_to_controllers<S>(app: &AppState<S>, out: &mut Outcome, message: &ServerMessage)
    requires
        app.wf(),
    ensures
        final(out)@ == (OutcomeModel {
            deliveries: old(out)@.deliveries + to_controllers(*app, message@),
            close: old(out)@.close,
        }),
{
    let controllers = app.get_all_controller_sessions();
    let ghost all = to_controllers(*app, message@);
    assert(session_pairs(controllers@).len() == controllers@.len());
    let mut k: usize = 0;
    while k < controllers.len()
        invariant
            k <= controllers@.len(),
            all.len() == controllers@.len(),
            session_pairs(controllers@) == app.controller_entries().map_values(
                |e: (usize, ControllerData<S>)| (e.0, e.1.session),
            ),
            all == to_controllers(*app, message@),
            out@ == (OutcomeModel {
                deliveries: old(out)@.deliveries + all.take(k as int),
                close: old(out)@.close,
            }),
        decreases controllers@.len() - k,
    {
        assert(session_pairs(controllers@)[k as int].0 == controllers@[k as int].0);
        let i = controllers[k].0;
        assert(all[k as int] == plain(Target::To(SessionId::spec_new(Role::Controller, i)), message@));
        let target = Target::To(SessionId::new(Role::Controller, i));
        out.deliver(target, message.duplicate(), None);
        assert(all.take(k + 1) =~= all.take(k as int).push(all[k as int]));
        assert(old(out)@.deliveries + all.take(k + 1) =~= (old(out)@.deliveries + all.take(
            k as int,
        )).push(all[k as int]));
        k = k + 1;
    }
    assert(all.take(k as int) =~= all);
}

/// Adds `message` for every viewer watching `streamer` to the deliveries.
pub fn deliver_to_watchers<S>(app: &AppState<S>, streamer: usize, out: &mut Outcome, message: &ServerMessage)
    requires
        app.wf(),
    ensures
        final(out)@ == (OutcomeModel {
            deliveries: old(out)@.deliveries + to_watchers(*app, streamer, message@),
            close: old(out)@.close,
        }),
{
    let viewers = app.get_all_viewer_sessions_by_streamer(Some(streamer));
    let ghost all = to_watchers(*app, streamer, message@);
    assert(session_pairs(viewers@).len() == viewers@.len());
    let mut k: usize = 0;
    while k < viewers.len()
        invariant
            k <= viewers@.len(),
            all.len() == viewers@.len(),
            session_pairs(viewers@) == watching_sessions(app.viewer_entries(), Some(streamer)),
            all == to_watchers(*app, streamer, message@),
            out@ == (OutcomeModel {
                deliveries: old(out)@.deliveries + all.take(k as int),
                close: old(out)@.close,
            }),
        decreases viewers@.len() - k,
    {
        assert(session_pairs(viewers@)[k as int].0 == viewers@[k as int].0);
        let i = viewers[k].0;
        assert(all[k as int] == plain(Target::To(SessionId::spec_new(Role::Viewer, i)), message@));
        let target = Target::To(SessionId::new(Role::Viewer, i));
        out.deliver(target, message.duplicate(), None);
        assert(all.take(k + 1) =~= all.take(k as int).push(all[k as int]));
        assert(old(out)@.deliveries + all.take(k + 1) =~= (old(out)@.deliveries + all.take(
            k as int,
        )).push(all[k as int]));
        k = k + 1;
    }
    assert(all.take(k as int) =~= all);
}

/// The delivery goes back to the sender, or to a session that the state holds.
pub open spec fn reaches_connected<S>(app: AppState<S>, d: DeliveryModel) -> bool {
    match d.target {
        Target::Back => true,
        Target::To(id) => app.has_session(id),
    }
}

/// Messages for every controller, or for the viewers of a streamer, go to connected
/// sessions.
pub proof fn lemma_broadcasts_reach_connected<S>(
    app: AppState<S>,
    streamer: usize,
    message: ServerMessageModel,
)
    requires
        app.wf(),
    ensures
        forall|k: int|
            0 <= k < to_controllers(app, message).len() ==> reaches_connected(
                app,
                #[trigger] to_controllers(app, message)[k],
            ),
        forall|k: int|
            0 <= k < to_watchers(app, streamer, message).len() ==> reaches_connected(
                app,
                #[trigger] to_watchers(app, streamer, message)[k],
            ),
{
    app.lemma_entries_in_key_order();
    let cs = to_controllers(app, message);
    assert forall|k: int| 0 <= k < cs.len() implies reaches_connected(app, #[trigger] cs[k]) by {
        let e = app.controller_entries()[k];
        SessionId::lemma_parts(Role::Controller, e.0);
    }
    let es = app.viewer_entries();
    let ws = watching_sessions(es, Some(streamer));
    crate::app_state::lemma_watching_sessions_members(es, Some(streamer));
    let vs = to_watchers(app, streamer, message);
    assert forall|k: int| 0 <= k < vs.len() implies reaches_connected(app, #[trigger] vs[k]) by {
        assert(ws[k] == ws[k]);
        let j = choose|j: int| 0 <= j < es.len() && (#[trigger] es[j]).0 == ws[k].0 && es[j].1.watching == Some(streamer);
        SessionId::lemma_parts(Role::Viewer, ws[k].0);
    }
}


/// Each entry of `es` that watches `streamer` has its index among `watching_sessions`.
proof fn lemma_watching_sessions_cover<S>(es: Seq<(usize, ViewerData<S>)>, streamer: Option<usize>)
    ensures
        forall|j: int|
            #![trigger es[j]]
            0 <= j < es.len() && es[j].1.watching == streamer ==> exists|k: int|
                0 <= k < watching_sessions(es, streamer).len() && watching_sessions(es, streamer)[k].0
                    == es[j].0,
    decreases es.len(),
{
    if es.len() > 0 {
        let init = es.drop_last();
        lemma_watching_sessions_cover(init, streamer);
        let before = watching_sessions(init, streamer);
        let ws = watching_sessions(es, streamer);
        let n = es.len() - 1;
        assert forall|j: int|
            #![trigger es[j]]
            0 <= j < es.len() && es[j].1.watching == streamer implies exists|k: int|
                0 <= k < ws.len() && ws[k].0 == es[j].0 by {
            if j < n {
                assert(init[j] == es[j]);
                let k = choose|k: int| 0 <= k < before.len() && before[k].0 == init[j].0;
                assert(ws[k] == before[k]);
            } else {
                assert(ws[before.len() as int].0 == es[n].0);
            }
        }
    }
}

/// A message for every controller reaches each connected controller exactly once, by
/// increasing index, and no other session; a message for the viewers of a streamer reaches
/// each connected viewer that watches that streamer, and no other session. None of these
/// deliveries closes the connection where it fails.
pub proof fn lemma_broadcasts_reach_exactly<S>(
    app: AppState<S>,
    streamer: usize,
    message: ServerMessageModel,
)
    requires
        app.wf(),
    ensures
        ({
            let cs = to_controllers(app, message);
            &&& cs.len() == app.controllers().len()
            &&& forall|k: int|
                #![trigger cs[k]]
                0 <= k < cs.len() ==> {
                    &&& cs[k].message == message
                    &&& cs[k].on_failure is None
                    &&& cs[k].target is To
                    &&& cs[k].target->To_0.spec_role() == Role::Controller
                    &&& app.controllers().contains_key(cs[k].target->To_0.spec_index())
                }
            &&& forall|i: usize|
                #[trigger] app.controllers().contains_key(i) ==> exists|k: int|
                    0 <= k < cs.len() && cs[k].target == Target::To(SessionId::spec_new(Role::Controller, i))
            &&& forall|k: int, l: int|
                0 <= k < l < cs.len() ==> (#[trigger] cs[k]).target->To_0.spec_index()
                    < (#[trigger] cs[l]).target->To_0.spec_index()
        }),
        ({
            let vs = to_watchers(app, streamer, message);
            &&& forall|k: int|
                #![trigger vs[k]]
                0 <= k < vs.len() ==> {
                    &&& vs[k].message == message
                    &&& vs[k].on_failure is None
                    &&& vs[k].target is To
                    &&& vs[k].target->To_0.spec_role() == Role::Viewer
                    &&& app.viewers().contains_key(vs[k].target->To_0.spec_index())
                    &&& app.viewers()[vs[k].target->To_0.spec_index()].watching == Some(streamer)
                }
            &&& forall|i: usize|
                #[trigger] app.viewers().contains_key(i) && app.viewers()[i].watching == Some(streamer)
                    ==> exists|k: int|
                    0 <= k < vs.len() && vs[k].target == Target::To(SessionId::spec_new(Role::Viewer, i))
        }),
{
    app.lemma_entries_in_key_order();
    let ces = app.controller_entries();
    let cs = to_controllers(app, message);
    assert forall|k: int|
        #![trigger cs[k]]
        0 <= k < cs.len() implies {
            &&& cs[k].message == message
            &&& cs[k].on_failure is None
            &&& cs[k].target is To
            &&& cs[k].target->To_0.spec_role() == Role::Controller
            &&& app.controllers().contains_key(cs[k].target->To_0.spec_index())
        } by {
        SessionId::lemma_parts(Role::Controller, ces[k].0);
    }
    assert forall|i: usize| #[trigger] app.controllers().contains_key(i) implies exists|k: int|
        0 <= k < cs.len() && cs[k].target == Target::To(SessionId::spec_new(Role::Controller, i)) by {
        let k = choose|k: int| 0 <= k < ces.len() && ces[k].0 == i;
        assert(cs[k].target == Target::To(SessionId::spec_new(Role::Controller, i)));
    }
    assert forall|k: int, l: int|
        0 <= k < l < cs.len() implies (#[trigger] cs[k]).target->To_0.spec_index()
            < (#[trigger] cs[l]).target->To_0.spec_index() by {
        SessionId::lemma_parts(Role::Controller, ces[k].0);
        SessionId::lemma_parts(Role::Controller, ces[l].0);
    }
    let es = app.viewer_entries();
    let ws = watching_sessions(es, Some(streamer));
    let vs = to_watchers(app, streamer, message);
    assert forall|k: int|
        #![trigger vs[k]]
        0 <= k < vs.len() implies {
            &&& vs[k].message == message
            &&& vs[k].on_failure is None
            &&& vs[k].target is To
            &&& vs[k].target->To_0.spec_role() == Role::Viewer
            &&& app.viewers().contains_key(vs[k].target->To_0.spec_index())
            &&& app.viewers()[vs[k].target->To_0.spec_index()].watching == Some(streamer)
        } by {
        crate::app_state::lemma_watching_sessions_members(es, Some(streamer));
        assert(ws[k] == ws[k]);
        let j = choose|j: int|
            0 <= j < es.len() && (#[trigger] es[j]).0 == ws[k].0 && es[j].1.watching == Some(streamer);
        SessionId::lemma_parts(Role::Viewer, ws[k].0);
        assert(app.viewers()[es[j].0] == es[j].1);
    }
    assert forall|i: usize|
        #[trigger] app.viewers().contains_key(i) && app.viewers()[i].watching == Some(streamer)
            implies exists|k: int|
            0 <= k < vs.len() && vs[k].target == Target::To(SessionId::spec_new(Role::Viewer, i)) by {
        lemma_watching_sessions_cover(es, Some(streamer));
        let j = choose|j: int| 0 <= j < es.len() && es[j].0 == i;
        assert(es[j].1 == app.viewers()[i]);
        let k = choose|k: int| 0 <= k < ws.len() && ws[k].0 == es[j].0;
        assert(vs[k].target == Target::To(SessionId::spec_new(Role::Viewer, i)));
    }
}

} // verus!
