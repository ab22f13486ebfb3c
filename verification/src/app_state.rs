//! Application state: the viewers, streamers and controllers connected to the server,
//! each kept in a sparse set under an index that stays stable while it is connected.
//!
//! The state is generic over the session handle `S` that reaches a client; it stores and
//! hands back sessions as they are.
use vstd::prelude::*;
use crate::sparse_set::SparseSet;
use crate::text::{chars_of, extend_chars, spec_usize_text, string_of, usize_text};

verus! {

/// Represents the role of a client in the MobileCam system.
#[derive(Debug, Clone, Copy, PartialEq, Eq, Structural, PartialOrd, Ord, Hash)]
pub enum Role {
    /// The viewer role, representing clients that watch the stream.
    Viewer,
    /// The streamer role, representing clients that broadcast the stream.
    Streamer,
    /// The controller role, representing clients that can control the stream.
    Controller,
}

/// The name of a role as its variant is written: `Viewer`, `Streamer`, `Controller`.
pub open spec fn role_name(r: Role) -> Seq<char> {
    match r {
        Role::Viewer => seq!['V', 'i', 'e', 'w', 'e', 'r'],
        Role::Streamer => seq!['S', 't', 'r', 'e', 'a', 'm', 'e', 'r'],
        Role::Controller => seq!['C', 'o', 'n', 't', 'r', 'o', 'l', 'l', 'e', 'r'],
    }
}

/// The code of a character once an ASCII capital is made small.
pub open spec fn lower_code(c: char) -> int {
    if 'A' <= c && c <= 'Z' {
        c as int + 32
    } else {
        c as int
    }
}

/// `s` spells the role's name in any mix of case.
pub open spec fn names_role(s: Seq<char>, r: Role) -> bool {
    &&& s.len() == role_name(r).len()
    &&& forall|i: int| 0 <= i < s.len() ==> lower_code(#[trigger] s[i]) == lower_code(role_name(r)[i])
}

/// The role whose name `s` spells, ignoring case.
pub open spec fn spec_parse_role(s: Seq<char>) -> Option<Role> {
    if names_role(s, Role::Viewer) {
        Some(Role::Viewer)
    } else if names_role(s, Role::Streamer) {
        Some(Role::Streamer)
    } else if names_role(s, Role::Controller) {
        Some(Role::Controller)
    } else {
        None
    }
}

/// Custom error type for invalid role errors.
#[derive(Debug, Clone, Copy, PartialEq, Eq, Structural)]
pub struct InvalidRoleError;

impl InvalidRoleError {
    /// What the error says: `Invalid role provided`.
    pub fn message(&self) -> (res: String)
        ensures
            res@ == seq![
                'I', 'n', 'v', 'a', 'l', 'i', 'd', ' ', 'r', 'o', 'l', 'e', ' ', 'p', 'r', 'o', 'v',
                'i', 'd', 'e', 'd',
            ],
    {
        let chars = vec![
            'I', 'n', 'v', 'a', 'l', 'i', 'd', ' ', 'r', 'o', 'l', 'e', ' ', 'p', 'r', 'o', 'v',
            'i', 'd', 'e', 'd',
        ];
        string_of(&chars, 0, chars.len())
    }
}

fn name_chars(r: Role) -> (res: Vec<char>)
    ensures
        res@ == role_name(r),
{
    match r {
        Role::Viewer => vec!['V', 'i', 'e', 'w', 'e', 'r'],
        Role::Streamer => vec!['S', 't', 'r', 'e', 'a', 'm', 'e', 'r'],
        Role::Controller => vec!['C', 'o', 'n', 't', 'r', 'o', 'l', 'l', 'e', 'r'],
    }
}

fn lower(c: char) -> (res: u32)
    ensures
        res == lower_code(c),
{
    if c >= 'A' && c <= 'Z' {
        (c as u32) + 32
    } else {
        c as u32
    }
}

fn spells(chars: &Vec<char>, r: Role) -> (res: bool)
    ensures
        res == names_role(chars@, r),
{
    let name = name_chars(r);
    if chars.len() != name.len() {
        return false;
    }
    let mut i: usize = 0;
    while i < chars.len()
        invariant
            chars@.len() == name@.len(),
            name@ == role_name(r),
            i <= chars@.len(),
            forall|j: int| 0 <= j < i ==> lower_code(#[trigger] chars@[j]) == lower_code(name@[j]),
        decreases chars@.len() - i,
    {
        if lower(chars[i]) != lower(name[i]) {
            return false;
        }
        i = i + 1;
    }
    true
}

impl Role {
    /// Reads a role from its name, in any mix of case.
    pub fn parse(s: &str) -> (res: Result<Role, InvalidRoleError>)
        ensures
            res == match spec_parse_role(s@) {
                Some(r) => Ok::<Role, InvalidRoleError>(r),
                None => Err(InvalidRoleError),
            },
    {
        let chars = chars_of(s);
        if spells(&chars, Role::Viewer) {
            Ok(Role::Viewer)
        } else if spells(&chars, Role::Streamer) {
            Ok(Role::Streamer)
        } else if spells(&chars, Role::Controller) {
            Ok(Role::Controller)
        } else {
            Err(InvalidRoleError)
        }
    }
}

/// A role's name reads back as that role, in any mix of case.
pub proof fn lemma_role_name_round_trip(r: Role)
    ensures
        spec_parse_role(role_name(r)) == Some(r),
{
    let n = role_name(r);
    assert(names_role(n, r));
    match r {
        Role::Viewer => {},
        Role::Streamer => {
            assert(!names_role(n, Role::Viewer));
        },
        Role::Controller => {
            assert(!names_role(n, Role::Viewer));
            assert(!names_role(n, Role::Streamer));
        },
    }
}

impl std::str::FromStr for Role {
    type Err = InvalidRoleError;

    fn from_str(s: &str) -> (res: Result<Role, InvalidRoleError>)
        ensures
            res == match spec_parse_role(s@) {
                Some(r) => Ok::<Role, InvalidRoleError>(r),
                None => Err(InvalidRoleError),
            },
    {
        Role::parse(s)
    }
}

/// A mixed index structure that combines a session index with a role-specific index for
/// efficient access to session data.
#[derive(Debug, Clone, Copy, PartialEq, Eq, Structural)]
pub struct SessionId(Role, usize);

/// How a session id is written: the role's name, then the index in brackets.
pub open spec fn spec_session_id_text(r: Role, index: usize) -> Seq<char> {
    role_name(r) + seq!['('] + spec_usize_text(index as nat) + seq![')']
}

impl SessionId {
    pub closed spec fn spec_role(self) -> Role {
        self.0
    }

    pub closed spec fn spec_index(self) -> usize {
        self.1
    }

    /// The session id of the given role and index.
    pub closed spec fn spec_new(role: Role, index: usize) -> SessionId {
        SessionId(role, index)
    }

    /// A session id is its role and its index.
    pub proof fn lemma_parts(role: Role, index: usize)
        ensures
            #[trigger] Self::spec_new(role, index).spec_role() == role,
            Self::spec_new(role, index).spec_index() == index,
    {
    }

    /// The session of the given role at the given index.
    pub fn new(role: Role, index: usize) -> (res: Self)
        ensures
            res == Self::spec_new(role, index),
            res.spec_role() == role,
            res.spec_index() == index,
    {
        SessionId(role, index)
    }

    /// The session's role.
    pub fn role(self) -> (res: Role)
        ensures
            res == self.spec_role(),
    {
        self.0
    }

    /// The session's index among the sessions of its role.
    pub fn index(self) -> (res: usize)
        ensures
            res == self.spec_index(),
    {
        self.1
    }

    /// Retrieves the index if the session is a viewer, returning `None` if the session is
    /// not.
    pub fn as_viewer(self) -> (res: Option<usize>)
        ensures
            res == if self.spec_role() == Role::Viewer {
                Some(self.spec_index())
            } else {
                None
            },
    {
        if self.0 == Role::Viewer {
            Some(self.1)
        } else {
            None
        }
    }

    /// The session id written as `Role(index)`, such as `Viewer(3)`.
    pub fn to_text(self) -> (res: String)
        ensures
            res@ == spec_session_id_text(self.spec_role(), self.spec_index()),
    {
        let mut out = name_chars(self.0);
        out.push('(');
        let digits = usize_text(self.1);
        extend_chars(&mut out, &digits);
        out.push(')');
        assert(out@ =~= spec_session_id_text(self.spec_role(), self.spec_index()));
        string_of(&out, 0, out.len())
    }
}

impl From<(Role, usize)> for SessionId {
    fn from(value: (Role, usize)) -> (res: SessionId) {
        SessionId::new(value.0, value.1)
    }
}

impl vstd::std_specs::convert::FromSpecImpl<(Role, usize)> for SessionId {
    open spec fn obeys_from_spec() -> bool {
        true
    }

    open spec fn from_spec(v: (Role, usize)) -> SessionId {
        SessionId::spec_new(v.0, v.1)
    }
}

/// The view of an optional owned string.
pub open spec fn opt_string_view(o: Option<String>) -> Option<Seq<char>> {
    match o {
        Some(s) => Some(s@),
        None => None,
    }
}

/// The view of an optional borrowed string.
pub open spec fn opt_str_view(o: Option<&str>) -> Option<Seq<char>> {
    match o {
        Some(s) => Some(s@),
        None => None,
    }
}

fn owned_name(name: Option<&str>) -> (res: Option<String>)
    ensures
        opt_string_view(res) == opt_str_view(name),
{
    match name {
        Some(n) => Some(String::from_str(n)),
        None => None,
    }
}

/// Viewer data structure, containing the session and the streamer it is watching.
pub struct ViewerData<S> {
    /// The session associated with the viewer.
    pub session: S,
    /// An optional field indicating the streamer that the viewer is currently watching.
    pub watching: Option<usize>,
    /// An optional field for the name of the viewer, which can be used for display purposes.
    pub name: Option<String>,
}

/// Video transform data structure, containing rotation, zoom, and position information for
/// the video stream. The zoom and the position are `f32` values that the server only stores
/// and passes on; they are held as their IEEE-754 bit patterns (`f32::to_bits`).
#[derive(Debug, Clone, Copy, PartialEq, Eq, Structural)]
pub struct VideoTransform {
    /// The rotation of the video stream in degrees, positive values clockwise.
    pub rotation: i16,
    /// The bits of the zoom level, where 1.0 is the default zoom level.
    pub zoom_bits: u32,
    /// The bits of the x-coordinate of the video stream's position.
    pub x_bits: u32,
    /// The bits of the y-coordinate of the video stream's position.
    pub y_bits: u32,
}

/// A video transform as the wire messages carry it, with a 32-bit rotation.
#[derive(Debug, Clone, Copy, PartialEq, Eq, Structural)]
pub struct ProtoVideoTransform {
    pub rotation: i32,
    pub zoom_bits: u32,
    pub x_bits: u32,
    pub y_bits: u32,
}

/// A transform as the wire messages carry it.
pub open spec fn spec_to_proto(t: VideoTransform) -> ProtoVideoTransform {
    ProtoVideoTransform {
        rotation: t.rotation as i32,
        zoom_bits: t.zoom_bits,
        x_bits: t.x_bits,
        y_bits: t.y_bits,
    }
}

/// The transform that a wire message carries; the rotation keeps its low 16 bits.
pub open spec fn spec_from_proto(p: ProtoVideoTransform) -> VideoTransform {
    VideoTransform {
        rotation: p.rotation as i16,
        zoom_bits: p.zoom_bits,
        x_bits: p.x_bits,
        y_bits: p.y_bits,
    }
}

impl VideoTransform {
    /// The transform as the wire messages carry it.
    pub fn to_proto(self) -> (res: ProtoVideoTransform)
        ensures
            res == spec_to_proto(self),
    {
        ProtoVideoTransform {
            rotation: self.rotation as i32,
            zoom_bits: self.zoom_bits,
            x_bits: self.x_bits,
            y_bits: self.y_bits,
        }
    }

    /// The transform that a wire message carries; the rotation keeps its low 16 bits.
    pub fn from_proto(value: ProtoVideoTransform) -> (res: Self)
        ensures
            res == spec_from_proto(value),
    {
        VideoTransform {
            rotation: value.rotation as i16,
            zoom_bits: value.zoom_bits,
            x_bits: value.x_bits,
            y_bits: value.y_bits,
        }
    }
}

/// A transform sent on the wire and read back is the same transform.
pub proof fn lemma_transform_round_trip(t: VideoTransform)
    ensures
        spec_from_proto(spec_to_proto(t)) == t,
{
}

/// A wire transform read and sent back is the same, when its rotation fits in 16 bits.
pub proof fn lemma_proto_transform_round_trip(p: ProtoVideoTransform)
    requires
        i16::MIN <= p.rotation <= i16::MAX,
    ensures
        spec_to_proto(spec_from_proto(p)) == p,
{
}

/// Streamer data structure, containing the session and what the streamer reported.
pub struct StreamerData<S> {
    /// The session associated with the streamer.
    pub session: S,
    /// An optional field for the name of the streamer, which can be used for display purposes.
    pub name: Option<String>,
    /// An optional field for the video transform of the streamer's video stream.
    pub video_transform: Option<VideoTransform>,
    /// An optional field for the battery level of the streamer.
    pub battery_level: Option<u8>,
}

/// Controller data structure, containing the session.
pub struct ControllerData<S> {
    /// The session associated with the controller.
    pub session: S,
}

/// The main application state, containing sparse sets for streamers, controllers, and
/// viewers.
pub struct AppState<S> {
    /// A sparse set for managing streamer data.
    streamers: SparseSet<StreamerData<S>>,
    /// A sparse set for managing controller data.
    controllers: SparseSet<ControllerData<S>>,
    /// A sparse set for managing viewer data.
    viewers: SparseSet<ViewerData<S>>,
}

/// The pairs `(index, session)` of a list of pairs `(index, &session)`.
pub open spec fn session_pairs<S>(v: Seq<(usize, &S)>) -> Seq<(usize, S)> {
    v.map_values(|p: (usize, &S)| (p.0, *p.1))
}

/// The values behind a list of references.
pub open spec fn derefs<S>(v: Seq<&S>) -> Seq<S> {
    v.map_values(|r: &S| *r)
}

/// The viewers of `es` that watch `streamer` (`None`: no streamer), as `(index, session)`.
pub open spec fn watching_sessions<S>(es: Seq<(usize, ViewerData<S>)>, streamer: Option<usize>) -> Seq<
    (usize, S),
>
    decreases es.len(),
{
    if es.len() == 0 {
        Seq::empty()
    } else {
        let before = watching_sessions(es.drop_last(), streamer);
        if es.last().1.watching == streamer {
            before.push((es.last().0, es.last().1.session))
        } else {
            before
        }
    }
}

/// What a controller is told about a viewer.
#[derive(Debug, Clone, PartialEq, Eq)]
pub struct ViewerSessionInfo {
    /// The viewer's index.
    pub id: u64,
    /// The streamer the viewer watches, if any.
    pub streamer_id: Option<u64>,
    /// The viewer's name, if it gave one.
    pub name: Option<String>,
}

/// What a controller is told about a streamer.
#[derive(Debug, Clone, PartialEq, Eq)]
pub struct StreamerSessionInfo {
    /// The streamer's index.
    pub id: u64,
    /// The streamer's name, if it gave one.
    pub name: Option<String>,
    /// The bits of the zoom of the streamer's last reported video transform.
    pub zoom_bits: Option<u32>,
    /// The streamer's last reported battery level.
    pub battery_level: Option<u32>,
}

/// The info that describes viewer `index` holding `v`.
pub open spec fn spec_viewer_info<S>(index: usize, v: ViewerData<S>) -> ViewerSessionInfo {
    ViewerSessionInfo {
        id: index as u64,
        streamer_id: match v.watching {
            Some(i) => Some(i as u64),
            None => None,
        },
        name: v.name,
    }
}

impl ViewerSessionInfo {
    /// Describes viewer `session_id` holding `viewer_data`.
    pub fn from_viewer<S>(session_id: usize, viewer_data: &ViewerData<S>) -> (res: Self)
        ensures
            res == spec_viewer_info(session_id, *viewer_data),
    {
        let streamer_id = match viewer_data.watching {
            Some(i) => Some(i as u64),
            None => None,
        };
        let name = match &viewer_data.name {
            Some(n) => Some(n.clone()),
            None => None,
        };
        ViewerSessionInfo { id: session_id as u64, streamer_id, name }
    }

    /// A copy of the info.
    pub fn duplicate(&self) -> (res: Self)
        ensures
            res == *self,
    {
        let name = match &self.name {
            Some(n) => Some(n.clone()),
            None => None,
        };
        ViewerSessionInfo { id: self.id, streamer_id: self.streamer_id, name }
    }
}

/// The viewers of `es` that watch `streamer`, as controller info.
pub open spec fn watching_infos<S>(es: Seq<(usize, ViewerData<S>)>, streamer: Option<usize>) -> Seq<
    ViewerSessionInfo,
>
    decreases es.len(),
{
    if es.len() == 0 {
        Seq::empty()
    } else {
        let before = watching_infos(es.drop_last(), streamer);
        if es.last().1.watching == streamer {
            before.push(spec_viewer_info(es.last().0, es.last().1))
        } else {
            before
        }
    }
}

impl StreamerSessionInfo {
    /// Describes streamer `session_id` holding `streamer_data`.
    pub fn from_streamer<S>(session_id: usize, streamer_data: &StreamerData<S>) -> (res: Self)
        ensures
            res == spec_streamer_info(session_id, *streamer_data),
    {
        let name = match &streamer_data.name {
            Some(n) => Some(n.clone()),
            None => None,
        };
        let zoom_bits = match streamer_data.video_transform {
            Some(t) => Some(t.zoom_bits),
            None => None,
        };
        let battery_level = match streamer_data.battery_level {
            Some(b) => Some(b as u32),
            None => None,
        };
        StreamerSessionInfo { id: session_id as u64, name, zoom_bits, battery_level }
    }

    /// A copy of the info.
    pub fn duplicate(&self) -> (res: Self)
        ensures
            res == *self,
    {
        let name = match &self.name {
            Some(n) => Some(n.clone()),
            None => None,
        };
        StreamerSessionInfo {
            id: self.id,
            name,
            zoom_bits: self.zoom_bits,
            battery_level: self.battery_level,
        }
    }
}

/// The info that describes streamer `index` holding `s`.
pub open spec fn spec_streamer_info<S>(index: usize, s: StreamerData<S>) -> StreamerSessionInfo {
    StreamerSessionInfo {
        id: index as u64,
        name: s.name,
        zoom_bits: match s.video_transform {
            Some(t) => Some(t.zoom_bits),
            None => None,
        },
        battery_level: match s.battery_level {
            Some(b) => Some(b as u32),
            None => None,
        },
    }
}

impl<S> AppState<S> {
    pub closed spec fn wf(&self) -> bool {
        &&& self.streamers.wf()
        &&& self.controllers.wf()
        &&& self.viewers.wf()
    }

    /// The streamers by index.
    pub closed spec fn streamers(&self) -> Map<usize, StreamerData<S>> {
        self.streamers@
    }

    /// The controllers by index.
    pub closed spec fn controllers(&self) -> Map<usize, ControllerData<S>> {
        self.controllers@
    }

    /// The viewers by index.
    pub closed spec fn viewers(&self) -> Map<usize, ViewerData<S>> {
        self.viewers@
    }

    /// The streamers by increasing index.
    pub closed spec fn streamer_entries(&self) -> Seq<(usize, StreamerData<S>)> {
        self.streamers.entries()
    }

    /// The controllers by increasing index.
    pub closed spec fn controller_entries(&self) -> Seq<(usize, ControllerData<S>)> {
        self.controllers.entries()
    }

    /// The viewers by increasing index.
    pub closed spec fn viewer_entries(&self) -> Seq<(usize, ViewerData<S>)> {
        self.viewers.entries()
    }

    /// The index that the next session of `role` gets.
    pub closed spec fn next_index(&self, role: Role) -> usize {
        match role {
            Role::Streamer => self.streamers.next_index(),
            Role::Controller => self.controllers.next_index(),
            Role::Viewer => self.viewers.next_index(),
        }
    }

    /// Whether a session of the id's role is stored at the id's index.
    pub open spec fn has_session(&self, id: SessionId) -> bool {
        match id.spec_role() {
            Role::Streamer => self.streamers().contains_key(id.spec_index()),
            Role::Controller => self.controllers().contains_key(id.spec_index()),
            Role::Viewer => self.viewers().contains_key(id.spec_index()),
        }
    }

    /// The session stored under the id, where there is one.
    pub open spec fn session_of(&self, id: SessionId) -> S {
        match id.spec_role() {
            Role::Streamer => self.streamers()[id.spec_index()].session,
            Role::Controller => self.controllers()[id.spec_index()].session,
            Role::Viewer => self.viewers()[id.spec_index()].session,
        }
    }

    /// The entries give every stored session of each role once, by increasing index.
    pub proof fn lemma_entries_in_key_order(&self)
        requires
            self.wf(),
        ensures
            crate::sparse_set::lists_in_key_order(self.streamer_entries(), self.streamers()),
            crate::sparse_set::lists_in_key_order(self.controller_entries(), self.controllers()),
            crate::sparse_set::lists_in_key_order(self.viewer_entries(), self.viewers()),
            self.streamers().dom().finite(),
            self.controllers().dom().finite(),
            self.viewers().dom().finite(),
            self.streamer_entries().len() == self.streamers().len(),
            self.controller_entries().len() == self.controllers().len(),
            self.viewer_entries().len() == self.viewers().len(),
    {
        self.streamers.lemma_entries_in_key_order();
        self.controllers.lemma_entries_in_key_order();
        self.viewers.lemma_entries_in_key_order();
    }

    /// Creates a new, empty `AppState`.
    pub fn new() -> (res: Self)
        ensures
            res.wf(),
            res.streamers() == Map::<usize, StreamerData<S>>::empty(),
            res.controllers() == Map::<usize, ControllerData<S>>::empty(),
            res.viewers() == Map::<usize, ViewerData<S>>::empty(),
            res.next_index(Role::Streamer) == 0,
            res.next_index(Role::Controller) == 0,
            res.next_index(Role::Viewer) == 0,
    {
        AppState {
            streamers: SparseSet::with_capacity(1),
            controllers: SparseSet::with_capacity(1),
            viewers: SparseSet::with_capacity(1),
        }
    }

    /// Adds a controller session, returning the [`SessionId`] that identifies it.
    pub fn add_controller(&mut self, session: S) -> (res: SessionId)
        requires
            old(self).wf(),
        ensures
            final(self).wf(),
            res.spec_role() == Role::Controller,
            res.spec_index() == old(self).next_index(Role::Controller),
            !old(self).controllers().contains_key(res.spec_index()),
            final(self).controllers() == old(self).controllers().insert(
                res.spec_index(),
                ControllerData { session },
            ),
            final(self).streamers() == old(self).streamers(),
            final(self).viewers() == old(self).viewers(),
    {
        let index = self.controllers.insert(ControllerData { session });
        SessionId(Role::Controller, index)
    }

    /// Adds a streamer session with an optional name, returning the [`SessionId`] that
    /// identifies it.
    pub fn add_streamer(&mut self, session: S, name: Option<&str>) -> (res: SessionId)
        requires
            old(self).wf(),
        ensures
            final(self).wf(),
            res.spec_role() == Role::Streamer,
            res.spec_index() == old(self).next_index(Role::Streamer),
            !old(self).streamers().contains_key(res.spec_index()),
            final(self).streamers().contains_key(res.spec_index()),
            final(self).streamers().remove(res.spec_index()) == old(self).streamers(),
            ({
                let d = final(self).streamers()[res.spec_index()];
                &&& d.session == session
                &&& opt_string_view(d.name) == opt_str_view(name)
                &&& d.video_transform is None
                &&& d.battery_level is None
            }),
            final(self).controllers() == old(self).controllers(),
            final(self).viewers() == old(self).viewers(),
    {
        let ghost old_map = self.streamers@;
        let index = self.streamers.insert(
            StreamerData {
                session,
                name: owned_name(name),
                video_transform: None,
                battery_level: None,
            },
        );
        assert(self.streamers@.remove(index) =~= old_map);
        SessionId(Role::Streamer, index)
    }

    /// Adds a viewer session with an optional name, returning the [`SessionId`] that
    /// identifies it.
    pub fn add_viewer(&mut self, session: S, name: Option<&str>) -> (res: SessionId)
        requires
            old(self).wf(),
        ensures
            final(self).wf(),
            res.spec_role() == Role::Viewer,
            res.spec_index() == old(self).next_index(Role::Viewer),
            !old(self).viewers().contains_key(res.spec_index()),
            final(self).viewers().contains_key(res.spec_index()),
            final(self).viewers().remove(res.spec_index()) == old(self).viewers(),
            ({
                let d = final(self).viewers()[res.spec_index()];
                &&& d.session == session
                &&& opt_string_view(d.name) == opt_str_view(name)
                &&& d.watching is None
            }),
            final(self).streamers() == old(self).streamers(),
            final(self).controllers() == old(self).controllers(),
    {
        let ghost old_map = self.viewers@;
        let index = self.viewers.insert(
            ViewerData { session, name: owned_name(name), watching: None },
        );
        assert(self.viewers@.remove(index) =~= old_map);
        SessionId(Role::Viewer, index)
    }

    /// Adds a session of the given role, without a name.
    pub fn insert(&mut self, role: Role, session: S) -> (res: SessionId)
        requires
            old(self).wf(),
        ensures
            final(self).wf(),
            res.spec_role() == role,
            res.spec_index() == old(self).next_index(role),
            !old(self).has_session(res),
            final(self).has_session(res),
            final(self).session_of(res) == session,
            role == Role::Streamer ==> final(self).streamers() == old(self).streamers().insert(
                res.spec_index(),
                (StreamerData { session, name: None, video_transform: None, battery_level: None }),
            ),
            role == Role::Controller ==> final(self).controllers() == old(
                self,
            ).controllers().insert(res.spec_index(), (ControllerData { session })),
            role == Role::Viewer ==> final(self).viewers() == old(self).viewers().insert(
                res.spec_index(),
                (ViewerData { session, watching: None, name: None }),
            ),
            role != Role::Streamer ==> final(self).streamers() == old(self).streamers(),
            role != Role::Controller ==> final(self).controllers() == old(self).controllers(),
            role != Role::Viewer ==> final(self).viewers() == old(self).viewers(),
    {
        let ghost old_self = *self;
        match role {
            Role::Streamer => {
                let res = self.add_streamer(session, None);
                assert(self.streamers() =~= old_self.streamers().insert(
                    res.spec_index(),
                    (StreamerData { session, name: None, video_transform: None, battery_level: None }),
                ));
                res
            },
            Role::Controller => self.add_controller(session),
            Role::Viewer => {
                let res = self.add_viewer(session, None);
                assert(self.viewers() =~= old_self.viewers().insert(
                    res.spec_index(),
                    (ViewerData { session, watching: None, name: None }),
                ));
                res
            },
        }
    }

    /// Removes a session from the sparse set of its role, returning the session.
    pub fn remove_session(&mut self, session_id: SessionId) -> (res: Option<S>)
        requires
            old(self).wf(),
        ensures
            final(self).wf(),
            res == if old(self).has_session(session_id) {
                Some(old(self).session_of(session_id))
            } else {
                None
            },
            !final(self).has_session(session_id),
            session_id.spec_role() == Role::Streamer ==> final(self).streamers() == old(
                self,
            ).streamers().remove(session_id.spec_index()),
            session_id.spec_role() != Role::Streamer ==> final(self).streamers() == old(
                self,
            ).streamers(),
            session_id.spec_role() == Role::Controller ==> final(self).controllers() == old(
                self,
            ).controllers().remove(session_id.spec_index()),
            session_id.spec_role() != Role::Controller ==> final(self).controllers() == old(
                self,
            ).controllers(),
            session_id.spec_role() == Role::Viewer ==> final(self).viewers() == old(
                self,
            ).viewers().remove(session_id.spec_index()),
            session_id.spec_role() != Role::Viewer ==> final(self).viewers() == old(
                self,
            ).viewers(),
            res is Some ==> final(self).next_index(session_id.spec_role())
                == session_id.spec_index(),
    {
        match session_id.0 {
            Role::Streamer => match self.streamers.remove(session_id.1) {
                Some(data) => Some(data.session),
                None => None,
            },
            Role::Controller => match self.controllers.remove(session_id.1) {
                Some(data) => Some(data.session),
                None => None,
            },
            Role::Viewer => match self.viewers.remove(session_id.1) {
                Some(data) => Some(data.session),
                None => None,
            },
        }
    }

    /// The session stored under `session_id`, if there is one.
    pub fn get_session(&self, session_id: SessionId) -> (res: Option<&S>)
        requires
            self.wf(),
        ensures
            res == if self.has_session(session_id) {
                Some(&self.session_of(session_id))
            } else {
                None
            },
    {
        match session_id.0 {
            Role::Streamer => self.get_streamer_session(session_id.1),
            Role::Controller => self.get_controller_session(session_id.1),
            Role::Viewer => self.get_viewer_session(session_id.1),
        }
    }

    /// Retrieves the session of a streamer by its index, `None` if there is no such streamer.
    pub fn get_streamer_session(&self, streamer_index: usize) -> (res: Option<&S>)
        requires
            self.wf(),
        ensures
            res == if self.streamers().contains_key(streamer_index) {
                Some(&self.streamers()[streamer_index].session)
            } else {
                None
            },
    {
        match self.streamers.get(streamer_index) {
            Some(s) => Some(&s.session),
            None => None,
        }
    }

    /// Retrieves the session of a viewer by its index, `None` if there is no such viewer.
    pub fn get_viewer_session(&self, viewer_index: usize) -> (res: Option<&S>)
        requires
            self.wf(),
        ensures
            res == if self.viewers().contains_key(viewer_index) {
                Some(&self.viewers()[viewer_index].session)
            } else {
                None
            },
    {
        match self.viewers.get(viewer_index) {
            Some(v) => Some(&v.session),
            None => None,
        }
    }

    /// Retrieves the session of a controller by its index, `None` if there is no such
    /// controller.
    pub fn get_controller_session(&self, controller_index: usize) -> (res: Option<&S>)
        requires
            self.wf(),
        ensures
            res == if self.controllers().contains_key(controller_index) {
                Some(&self.controllers()[controller_index].session)
            } else {
                None
            },
    {
        match self.controllers.get(controller_index) {
            Some(c) => Some(&c.session),
            None => None,
        }
    }
}

impl<S> AppState<S> {
    /// Retrieves all controller sessions, by increasing index.
    pub fn get_all_controller_sessions(&self) -> (res: Vec<(usize, &S)>)
        requires
            self.wf(),
        ensures
            session_pairs(res@) == self.controller_entries().map_values(
                |e: (usize, ControllerData<S>)| (e.0, e.1.session),
            ),
    {
        let pairs = self.controllers.pairs();
        let mut res: Vec<(usize, &S)> = Vec::new();
        let mut k: usize = 0;
        while k < pairs.len()
            invariant
                k <= pairs@.len(),
                pairs@.len() == self.controllers.entries().len(),
                forall|j: int|
                    0 <= j < pairs@.len() ==> (#[trigger] pairs@[j]).0
                        == self.controllers.entries()[j].0 && *pairs@[j].1
                        == self.controllers.entries()[j].1,
                res@.len() == k,
                forall|j: int|
                    0 <= j < k ==> (#[trigger] res@[j]).0 == pairs@[j].0 && *res@[j].1
                        == pairs@[j].1.session,
            decreases pairs@.len() - k,
        {
            let (i, c) = pairs[k];
            res.push((i, &c.session));
            k = k + 1;
        }
        assert(session_pairs(res@) =~= self.controller_entries().map_values(
            |e: (usize, ControllerData<S>)| (e.0, e.1.session),
        ));
        res
    }

    /// Retrieves the sessions of all viewers watching `streamer_index` (`None`: watching
    /// no streamer), by increasing index.
    pub fn get_all_viewer_sessions_by_streamer(&self, streamer_index: Option<usize>) -> (res: Vec<
        (usize, &S),
    >)
        requires
            self.wf(),
        ensures
            session_pairs(res@) == watching_sessions(self.viewer_entries(), streamer_index),
    {
        let pairs = self.viewers.pairs();
        let ghost es = self.viewers.entries();
        let mut res: Vec<(usize, &S)> = Vec::new();
        let mut k: usize = 0;
        while k < pairs.len()
            invariant
                k <= pairs@.len(),
                es == self.viewers.entries(),
                pairs@.len() == es.len(),
                forall|j: int|
                    0 <= j < pairs@.len() ==> (#[trigger] pairs@[j]).0 == es[j].0 && *pairs@[j].1
                        == es[j].1,
                session_pairs(res@) == watching_sessions(es.take(k as int), streamer_index),
            decreases pairs@.len() - k,
        {
            let (i, v) = pairs[k];
            assert(es.take(k + 1).drop_last() =~= es.take(k as int));
            assert(es.take(k + 1).last() == es[k as int]);
            if v.watching == streamer_index {
                let ghost before = res@;
                res.push((i, &v.session));
                assert(session_pairs(res@) =~= session_pairs(before).push((i, v.session)));
            }
            k = k + 1;
        }
        assert(es.take(k as int) =~= es);
        res
    }

    /// The indices of all streamers, increasing.
    pub fn get_all_streamers_id(&self) -> (res: Vec<usize>)
        requires
            self.wf(),
        ensures
            res@ == self.streamer_entries().map_values(|e: (usize, StreamerData<S>)| e.0),
    {
        let pairs = self.streamers.pairs();
        let mut res: Vec<usize> = Vec::new();
        let mut k: usize = 0;
        while k < pairs.len()
            invariant
                k <= pairs@.len(),
                pairs@.len() == self.streamers.entries().len(),
                forall|j: int|
                    0 <= j < pairs@.len() ==> (#[trigger] pairs@[j]).0
                        == self.streamers.entries()[j].0,
                res@.len() == k,
                forall|j: int| 0 <= j < k ==> #[trigger] res@[j] == pairs@[j].0,
            decreases pairs@.len() - k,
        {
            res.push(pairs[k].0);
            k = k + 1;
        }
        assert(res@ =~= self.streamer_entries().map_values(
            |e: (usize, StreamerData<S>)| e.0,
        ));
        res
    }

    /// The sessions of all controllers, then of all viewers, each by increasing index:
    /// everyone but the streamers.
    pub fn get_all_controllers_and_viewers_sessions(&self) -> (res: Vec<&S>)
        requires
            self.wf(),
        ensures
            derefs(res@) == self.controller_entries().map_values(
                |e: (usize, ControllerData<S>)| e.1.session,
            ) + self.viewer_entries().map_values(|e: (usize, ViewerData<S>)| e.1.session),
    {
        let controllers = self.controllers.pairs();
        let viewers = self.viewers.pairs();
        let ghost cs = self.controller_entries().map_values(
            |e: (usize, ControllerData<S>)| e.1.session,
        );
        let ghost vs = self.viewer_entries().map_values(|e: (usize, ViewerData<S>)| e.1.session);
        let mut res: Vec<&S> = Vec::new();
        let mut k: usize = 0;
        while k < controllers.len()
            invariant
                k <= controllers@.len(),
                controllers@.len() == cs.len(),
                forall|j: int| 0 <= j < controllers@.len() ==> (#[trigger] controllers@[j]).1.session == cs[j],
                res@.len() == k,
                forall|j: int| 0 <= j < k ==> *(#[trigger] res@[j]) == cs[j],
            decreases controllers@.len() - k,
        {
            res.push(&controllers[k].1.session);
            k = k + 1;
        }
        let mut m: usize = 0;
        while m < viewers.len()
            invariant
                m <= viewers@.len(),
                viewers@.len() == vs.len(),
                forall|j: int| 0 <= j < viewers@.len() ==> (#[trigger] viewers@[j]).1.session == vs[j],
                res@.len() == cs.len() + m,
                forall|j: int| 0 <= j < cs.len() ==> *(#[trigger] res@[j]) == cs[j],
                forall|j: int| 0 <= j < m ==> *(#[trigger] res@[cs.len() + j]) == vs[j],
            decreases viewers@.len() - m,
        {
            res.push(&viewers[m].1.session);
            m = m + 1;
        }
        let ghost all = derefs(res@);
        assert forall|j: int| 0 <= j < res@.len() implies #[trigger] all[j] == (cs + vs)[j] by {
            if j >= cs.len() {
                assert(*res@[cs.len() + (j - cs.len())] == vs[j - cs.len()]);
            }
        }
        assert(all =~= cs + vs);
        res
    }

    /// For a viewer, the session of the streamer it watches: `None` if there is no such
    /// viewer, `Some(None)` if it watches no streamer or one that is gone.
    pub fn get_streamer_session_from_viewer(&self, viewer_index: usize) -> (res: Option<
        Option<&S>,
    >)
        requires
            self.wf(),
        ensures
            res == if self.viewers().contains_key(viewer_index) {
                Some(
                    match self.viewers()[viewer_index].watching {
                        Some(s) => if self.streamers().contains_key(s) {
                            Some(&self.streamers()[s].session)
                        } else {
                            None
                        },
                        None => None,
                    },
                )
            } else {
                None
            },
    {
        match self.viewers.get(viewer_index) {
            Some(v) => match v.watching {
                Some(s) => Some(self.get_streamer_session(s)),
                None => Some(None),
            },
            None => None,
        }
    }

    /// Retrieves the number of viewers currently connected to the server.
    pub fn len_viewers(&self) -> (res: usize)
        requires
            self.wf(),
        ensures
            res == self.viewers().len(),
    {
        self.viewers.len()
    }

    /// Sets the streamer that a viewer watches; `false` if there is no such viewer.
    pub fn update_viewer_watching(&mut self, viewer_index: usize, streamer_index: Option<usize>) -> (res: bool)
        requires
            old(self).wf(),
        ensures
            final(self).wf(),
            res == old(self).viewers().contains_key(viewer_index),
            res ==> final(self).viewers() == old(self).viewers().insert(
                viewer_index,
                ViewerData { watching: streamer_index, ..old(self).viewers()[viewer_index] },
            ),
            !res ==> final(self).viewers() == old(self).viewers(),
            final(self).streamers() == old(self).streamers(),
            final(self).controllers() == old(self).controllers(),
            forall|r: Role| #[trigger] final(self).next_index(r) == old(self).next_index(r),
    {
        match self.viewers.get_mut(viewer_index) {
            Some(v) => {
                v.watching = streamer_index;
                true
            },
            None => false,
        }
    }

    /// The video transform that a streamer last reported; `None` if there is no such
    /// streamer.
    pub fn get_streamer_video_transform(&self, streamer_index: usize) -> (res: Option<&Option<VideoTransform>>)
        requires
            self.wf(),
        ensures
            res == if self.streamers().contains_key(streamer_index) {
                Some(&self.streamers()[streamer_index].video_transform)
            } else {
                None
            },
    {
        match self.streamers.get(streamer_index) {
            Some(s) => Some(&s.video_transform),
            None => None,
        }
    }

    /// Records a streamer's video transform; `false` if there is no such streamer.
    pub fn set_streamer_video_transform(&mut self, streamer_index: usize, video_transform: Option<VideoTransform>) -> (res: bool)
        requires
            old(self).wf(),
        ensures
            final(self).wf(),
            res == old(self).streamers().contains_key(streamer_index),
            res ==> final(self).streamers() == old(self).streamers().insert(
                streamer_index,
                StreamerData { video_transform, ..old(self).streamers()[streamer_index] },
            ),
            !res ==> final(self).streamers() == old(self).streamers(),
            final(self).viewers() == old(self).viewers(),
            final(self).viewer_entries() == old(self).viewer_entries(),
            final(self).controller_entries() == old(self).controller_entries(),
            final(self).controllers() == old(self).controllers(),
            forall|r: Role| #[trigger] final(self).next_index(r) == old(self).next_index(r),
    {
        match self.streamers.get_mut(streamer_index) {
            Some(s) => {
                s.video_transform = video_transform;
                true
            },
            None => false,
        }
    }

    /// Records a streamer's battery level; `false` if there is no such streamer.
    pub fn set_streamer_battery_level(&mut self, streamer_index: usize, battery_level: Option<u8>) -> (res: bool)
        requires
            old(self).wf(),
        ensures
            final(self).wf(),
            res == old(self).streamers().contains_key(streamer_index),
            res ==> final(self).streamers() == old(self).streamers().insert(
                streamer_index,
                StreamerData { battery_level, ..old(self).streamers()[streamer_index] },
            ),
            !res ==> final(self).streamers() == old(self).streamers(),
            final(self).viewers() == old(self).viewers(),
            final(self).viewer_entries() == old(self).viewer_entries(),
            final(self).controller_entries() == old(self).controller_entries(),
            final(self).controllers() == old(self).controllers(),
            forall|r: Role| #[trigger] final(self).next_index(r) == old(self).next_index(r),
    {
        match self.streamers.get_mut(streamer_index) {
            Some(s) => {
                s.battery_level = battery_level;
                true
            },
            None => false,
        }
    }
}

/// The info of each viewer of `es`, in order.
pub open spec fn viewer_infos<S>(es: Seq<(usize, ViewerData<S>)>) -> Seq<ViewerSessionInfo> {
    es.map_values(|e: (usize, ViewerData<S>)| spec_viewer_info(e.0, e.1))
}

/// The info of each streamer of `es`, in order.
pub open spec fn streamer_infos<S>(es: Seq<(usize, StreamerData<S>)>) -> Seq<StreamerSessionInfo> {
    es.map_values(|e: (usize, StreamerData<S>)| spec_streamer_info(e.0, e.1))
}

impl<S> AppState<S> {
    /// Describes every streamer, by increasing index.
    pub fn get_all_proto_streamer_sessions(&self) -> (res: Vec<StreamerSessionInfo>)
        requires
            self.wf(),
        ensures
            res@ == streamer_infos(self.streamer_entries()),
    {
        let pairs = self.streamers.pairs();
        let ghost es = self.streamers.entries();
        let mut res: Vec<StreamerSessionInfo> = Vec::new();
        let mut k: usize = 0;
        while k < pairs.len()
            invariant
                k <= pairs@.len(),
                es == self.streamers.entries(),
                pairs@.len() == es.len(),
                forall|j: int|
                    0 <= j < pairs@.len() ==> (#[trigger] pairs@[j]).0 == es[j].0 && *pairs@[j].1
                        == es[j].1,
                res@.len() == k,
                forall|j: int|
                    0 <= j < k ==> (#[trigger] res@[j]) == spec_streamer_info(
                        es[j].0,
                        es[j].1,
                    ),
            decreases pairs@.len() - k,
        {
            let (i, d) = pairs[k];
            res.push(StreamerSessionInfo::from_streamer(i, d));
            k = k + 1;
        }
        assert(res@ =~= streamer_infos(es));
        res
    }

    /// Describes one streamer; `None` if there is no such streamer.
    pub fn get_proto_streamer_session(&self, streamer_index: usize) -> (res: Option<StreamerSessionInfo>)
        requires
            self.wf(),
        ensures
            match res {
                Some(info) => self.streamers().contains_key(streamer_index) && info
                    == spec_streamer_info(streamer_index, self.streamers()[streamer_index]),
                None => !self.streamers().contains_key(streamer_index),
            },
    {
        match self.streamers.get(streamer_index) {
            Some(d) => Some(StreamerSessionInfo::from_streamer(streamer_index, d)),
            None => None,
        }
    }

    /// Describes one viewer; `None` if there is no such viewer.
    pub fn get_proto_viewer_session(&self, viewer_index: usize) -> (res: Option<ViewerSessionInfo>)
        requires
            self.wf(),
        ensures
            match res {
                Some(info) => self.viewers().contains_key(viewer_index) && info
                    == spec_viewer_info(viewer_index, self.viewers()[viewer_index]),
                None => !self.viewers().contains_key(viewer_index),
            },
    {
        match self.viewers.get(viewer_index) {
            Some(v) => Some(ViewerSessionInfo::from_viewer(viewer_index, v)),
            None => None,
        }
    }

    /// Describes every viewer, by increasing index.
    pub fn get_all_proto_viewer_sessions(&self) -> (res: Vec<ViewerSessionInfo>)
        requires
            self.wf(),
        ensures
            res@ == viewer_infos(self.viewer_entries()),
    {
        let pairs = self.viewers.pairs();
        let ghost es = self.viewers.entries();
        let mut res: Vec<ViewerSessionInfo> = Vec::new();
        let mut k: usize = 0;
        while k < pairs.len()
            invariant
                k <= pairs@.len(),
                es == self.viewers.entries(),
                pairs@.len() == es.len(),
                forall|j: int|
                    0 <= j < pairs@.len() ==> (#[trigger] pairs@[j]).0 == es[j].0 && *pairs@[j].1
                        == es[j].1,
                res@.len() == k,
                forall|j: int|
                    0 <= j < k ==> (#[trigger] res@[j]) == spec_viewer_info(
                        es[j].0,
                        es[j].1,
                    ),
            decreases pairs@.len() - k,
        {
            let (i, v) = pairs[k];
            res.push(ViewerSessionInfo::from_viewer(i, v));
            k = k + 1;
        }
        assert(res@ =~= viewer_infos(es));
        res
    }

    /// Describes every viewer watching `streamer_index` (`None`: watching no streamer), by
    /// increasing index.
    pub fn get_proto_viewer_sessions_by_streamer(&self, streamer_index: Option<usize>) -> (res: Vec<
        ViewerSessionInfo,
    >)
        requires
            self.wf(),
        ensures
            res@ == watching_infos(self.viewer_entries(), streamer_index),
    {
        let pairs = self.viewers.pairs();
        let ghost es = self.viewers.entries();
        let mut res: Vec<ViewerSessionInfo> = Vec::new();
        let mut k: usize = 0;
        while k < pairs.len()
            invariant
                k <= pairs@.len(),
                es == self.viewers.entries(),
                pairs@.len() == es.len(),
                forall|j: int|
                    0 <= j < pairs@.len() ==> (#[trigger] pairs@[j]).0 == es[j].0 && *pairs@[j].1
                        == es[j].1,
                res@ == watching_infos(es.take(k as int), streamer_index),
            decreases pairs@.len() - k,
        {
            let (i, v) = pairs[k];
            assert(es.take(k + 1).drop_last() =~= es.take(k as int));
            assert(es.take(k + 1).last() == es[k as int]);
            if v.watching == streamer_index {
                let ghost before = res@;
                let info = ViewerSessionInfo::from_viewer(i, v);
                res.push(info);
                assert(res@ =~= before.push(
                    spec_viewer_info(i, *v),
                ));
            }
            k = k + 1;
        }
        assert(es.take(k as int) =~= es);
        res
    }
}

impl<S> AppState<S> {
    /// The streamer that a connected viewer watches, if any.
    pub fn get_viewer_watching(&self, viewer_index: usize) -> (res: Option<usize>)
        requires
            self.wf(),
        ensures
            res == if self.viewers().contains_key(viewer_index) {
                self.viewers()[viewer_index].watching
            } else {
                None
            },
    {
        match self.viewers.get(viewer_index) {
            Some(v) => v.watching,
            None => None,
        }
    }
}

/// The viewer, watching no streamer.
pub open spec fn unwatched<S>(v: ViewerData<S>) -> ViewerData<S> {
    ViewerData { watching: None, ..v }
}

impl<S> AppState<S> {
    /// A streamer is gone: every viewer watching it now watches none. Returns the indices of
    /// those viewers, increasing.
    pub fn handle_streamer_disconnection(&mut self, streamer_index: usize) -> (res: Vec<usize>)
        requires
            old(self).wf(),
        ensures
            final(self).wf(),
            forall|a: int, b: int| 0 <= a < b < res@.len() ==> #[trigger] res@[a] < #[trigger] res@[b],
            forall|i: usize|
                #[trigger] res@.contains(i) <==> old(self).viewers().contains_key(i) && old(
                    self,
                ).viewers()[i].watching == Some(streamer_index),
            final(self).viewers() == Map::new(
                |i: usize| old(self).viewers().contains_key(i),
                |i: usize|
                    if old(self).viewers()[i].watching == Some(streamer_index) {
                        unwatched(old(self).viewers()[i])
                    } else {
                        old(self).viewers()[i]
                    },
            ),
            forall|i: usize|
                #[trigger] final(self).viewers().contains_key(i) ==> final(self).viewers()[i].watching
                    != Some(streamer_index),
            final(self).streamers() == old(self).streamers(),
            final(self).controllers() == old(self).controllers(),
            forall|r: Role| #[trigger] final(self).next_index(r) == old(self).next_index(r),
    {
        let ghost m = self.viewers();
        let ids = self.viewers_watching(streamer_index);
        assert forall|a: int| 0 <= a < ids@.len() implies m.contains_key(#[trigger] ids@[a]) by {
            assert(ids@.contains(ids@[a]));
        }
        self.unwatch_viewers(&ids);
        assert forall|i: usize| m.contains_key(i) implies #[trigger] ids@.contains(i) == (
        m[i].watching == Some(streamer_index)) by {}
        assert(self.viewers() =~= Map::new(
            |i: usize| m.contains_key(i),
            |i: usize|
                if m[i].watching == Some(streamer_index) {
                    unwatched(m[i])
                } else {
                    m[i]
                },
        ));
        ids
    }

    /// The indices of the viewers watching `streamer_index`, increasing.
    fn viewers_watching(&self, streamer_index: usize) -> (res: Vec<usize>)
        requires
            self.wf(),
        ensures
            forall|a: int, b: int| 0 <= a < b < res@.len() ==> #[trigger] res@[a] < #[trigger] res@[b],
            forall|i: usize|
                #[trigger] res@.contains(i) <==> self.viewers().contains_key(i)
                    && self.viewers()[i].watching == Some(streamer_index),
    {
        let ghost m = self.viewers();
        let ghost es = self.viewers.entries();
        proof {
            self.viewers.lemma_entries_in_key_order();
        }
        let pairs = self.viewers.pairs();
        let mut ids: Vec<usize> = Vec::new();
        let mut k: usize = 0;
        while k < pairs.len()
            invariant
                k <= pairs@.len(),
                es == self.viewers.entries(),
                m == self.viewers(),
                crate::sparse_set::lists_in_key_order(es, m),
                pairs@.len() == es.len(),
                forall|j: int|
                    0 <= j < pairs@.len() ==> (#[trigger] pairs@[j]).0 == es[j].0 && *pairs@[j].1
                        == es[j].1,
                forall|a: int, b: int| 0 <= a < b < ids@.len() ==> #[trigger] ids@[a] < #[trigger] ids@[b],
                k == 0 ==> ids@.len() == 0,
                k > 0 ==> forall|a: int| 0 <= a < ids@.len() ==> #[trigger] ids@[a] <= es[k - 1].0,
                forall|a: int|
                    0 <= a < ids@.len() ==> m.contains_key(#[trigger] ids@[a]) && m[ids@[a]].watching
                        == Some(streamer_index),
                forall|j: int|
                    0 <= j < k && (#[trigger] es[j]).1.watching == Some(streamer_index)
                        ==> ids@.contains(es[j].0),
            decreases pairs@.len() - k,
        {
            let (i, v) = pairs[k];
            assert(m.contains_key(es[k as int].0) && m[es[k as int].0] == es[k as int].1);
            if k > 0 {
                assert(es[k - 1].0 < es[k as int].0);
            }
            if v.watching == Some(streamer_index) {
                let ghost before = ids@;
                ids.push(i);
                assert forall|j: int|
                    0 <= j < k + 1 && (#[trigger] es[j]).1.watching == Some(streamer_index)
                        implies ids@.contains(es[j].0) by {
                    if j < k {
                        let a = choose|a: int| 0 <= a < before.len() && before[a] == es[j].0;
                        assert(ids@[a] == es[j].0);
                    } else {
                        assert(ids@[before.len() as int] == es[j].0);
                    }
                }
            } else {
                assert forall|j: int|
                    0 <= j < k + 1 && (#[trigger] es[j]).1.watching == Some(streamer_index)
                        implies ids@.contains(es[j].0) by {
                    assert(j < k);
                }
            }
            k = k + 1;
        }
        assert forall|i: usize| m.contains_key(i) && m[i].watching == Some(streamer_index) implies #[trigger] ids@.contains(i) by {
            let j = choose|j: int| 0 <= j < es.len() && es[j].0 == i;
            assert(es[j].1 == m[i]);
        }
        assert forall|i: usize| #[trigger] ids@.contains(i) implies m.contains_key(i) && m[i].watching == Some(streamer_index) by {
            let a = choose|a: int| 0 <= a < ids@.len() && ids@[a] == i;
        }
        ids
    }
}

impl<S> AppState<S> {
    /// Makes each viewer of `ids` watch no streamer.
    fn unwatch_viewers(&mut self, ids: &Vec<usize>)
        requires
            old(self).wf(),
            forall|a: int, b: int| 0 <= a < b < ids@.len() ==> #[trigger] ids@[a] < #[trigger] ids@[b],
            forall|a: int| 0 <= a < ids@.len() ==> old(self).viewers().contains_key(#[trigger] ids@[a]),
        ensures
            final(self).wf(),
            final(self).viewers() == Map::new(
                |i: usize| old(self).viewers().contains_key(i),
                |i: usize|
                    if ids@.contains(i) {
                        unwatched(old(self).viewers()[i])
                    } else {
                        old(self).viewers()[i]
                    },
            ),
            final(self).streamers() == old(self).streamers(),
            final(self).controllers() == old(self).controllers(),
            forall|r: Role| #[trigger] final(self).next_index(r) == old(self).next_index(r),
    {
        let ghost old_viewers = self.viewers();
        assert(self.viewers() =~= Map::new(
            |i: usize| old_viewers.contains_key(i),
            |i: usize|
                if ids@.take(0).contains(i) {
                    unwatched(old_viewers[i])
                } else {
                    old_viewers[i]
                },
        ));
        let mut k: usize = 0;
        while k < ids.len()
            invariant
                self.wf(),
                k <= ids@.len(),
                forall|a: int, b: int| 0 <= a < b < ids@.len() ==> #[trigger] ids@[a] < #[trigger] ids@[b],
                forall|a: int| 0 <= a < ids@.len() ==> old_viewers.contains_key(#[trigger] ids@[a]),
                self.viewers() == Map::new(
                    |i: usize| old_viewers.contains_key(i),
                    |i: usize|
                        if ids@.take(k as int).contains(i) {
                            unwatched(old_viewers[i])
                        } else {
                            old_viewers[i]
                        },
                ),
                self.streamers() == old(self).streamers(),
                self.controllers() == old(self).controllers(),
                forall|r: Role| #[trigger] self.next_index(r) == old(self).next_index(r),
            decreases ids@.len() - k,
        {
            let id = ids[k];
            let ghost before = self.viewers();
            let ghost done = ids@.take(k as int);
            assert(!done.contains(id)) by {
                if done.contains(id) {
                    let a = choose|a: int| 0 <= a < done.len() && done[a] == id;
                    assert(ids@[a] == done[a]);
                }
            }
            assert(before[id] == old_viewers[id]);
            self.update_viewer_watching(id, None);
            let ghost next = ids@.take(k + 1);
            assert(next =~= done.push(id));
            assert forall|i: usize| #[trigger] next.contains(i) == (done.contains(i) || i == id) by {
                if next.contains(i) && i != id {
                    let a = choose|a: int| 0 <= a < next.len() && next[a] == i;
                    assert(done[a] == i);
                }
                if done.contains(i) {
                    let a = choose|a: int| 0 <= a < done.len() && done[a] == i;
                    assert(next[a] == i);
                }
                if i == id {
                    assert(next[k as int] == i);
                }
            }
            assert(self.viewers() =~= Map::new(
                |i: usize| old_viewers.contains_key(i),
                |i: usize|
                    if next.contains(i) {
                        unwatched(old_viewers[i])
                    } else {
                        old_viewers[i]
                    },
            ));
            k = k + 1;
        }
        assert(ids@.take(k as int) =~= ids@);
    }
}

/// Every pair that `watching_sessions` keeps is a viewer of `es` that watches `streamer`.
pub proof fn lemma_watching_sessions_members<S>(es: Seq<(usize, ViewerData<S>)>, streamer: Option<usize>)
    ensures
        forall|k: int|
            #![trigger watching_sessions(es, streamer)[k]]
            0 <= k < watching_sessions(es, streamer).len() ==> exists|j: int|
                0 <= j < es.len() && (#[trigger] es[j]).0 == watching_sessions(es, streamer)[k].0
                    && es[j].1.watching == streamer,
    decreases es.len(),
{
    if es.len() > 0 {
        let init = es.drop_last();
        lemma_watching_sessions_members(init, streamer);
        let before = watching_sessions(init, streamer);
        let ws = watching_sessions(es, streamer);
        assert forall|k: int| #![trigger ws[k]] 0 <= k < ws.len() implies exists|j: int|
            0 <= j < es.len() && (#[trigger] es[j]).0 == ws[k].0 && es[j].1.watching == streamer by {
            if k < before.len() {
                assert(ws[k] == before[k]);
                let j = choose|j: int|
                    0 <= j < init.len() && (#[trigger] init[j]).0 == before[k].0
                        && init[j].1.watching == streamer;
                assert(es[j] == init[j]);
            } else {
                assert(es[es.len() - 1] == es.last());
            }
        }
    }
}

} // verus!
