//! Voice sessions: the per-connected-client state and the session registry.
//!
//! The Mumble session id is the player's net id. The stock client authenticates
//! with username `"[netId]"` and the server natives address players by server id,
//! so one id space serves both.
//!
//! This module owns only the logical session state (flags, whisper targets,
//! positional context). Transport and crypto live elsewhere.
use crate::ordered::IdMap;
use crate::target::{TargetModel, TargetRegistry};
use crate::text::{chars_of, parse_unsigned, parsed_unsigned, string_between};
use vstd::prelude::*;

verus! {

/// The first position of `c` in `s` from `from` on, or the length of `s`.
pub open spec fn first_position(s: Seq<char>, c: char, from: int) -> int
    decreases s.len() - from,
{
    if from >= s.len() {
        s.len() as int
    } else if s[from] == c {
        from
    } else {
        first_position(s, c, from + 1)
    }
}

/// The net id that a Mumble username of the form `"[netId]..."` names.
pub open spec fn netid_of(username: Seq<char>) -> Option<nat> {
    let end = first_position(username, ']', 1);
    if username.len() > 0 && username[0] == '[' && end < username.len() {
        parsed_unsigned(username.subrange(1, end), u32::MAX as nat)
    } else {
        None
    }
}

/// Parse a Mumble username of the form `"[netId]"` (optionally `"[netId] name"`)
/// into the net id. Returns `None` if it does not match: not a FiveM client.
pub fn parse_netid(username: &str) -> (id: Option<u32>)
    ensures
        match netid_of(username@) {
            Some(n) => id == Some(n as u32) && n <= u32::MAX,
            None => id is None,
        },
{
    let chars = chars_of(username);
    if chars.len() == 0 || chars[0] != '[' {
        return None;
    }
    let mut end: usize = 1;
    while end < chars.len() && chars[end] != ']'
        invariant
            1 <= end <= chars@.len(),
            first_position(chars@, ']', 1) == first_position(chars@, ']', end as int),
        decreases chars@.len() - end,
    {
        end = end + 1;
    }
    if end == chars.len() {
        return None;
    }
    let inner = string_between(&chars, 1, end);
    match parse_unsigned(inner.as_str(), u32::MAX as u64) {
        Some(n) => Some(n as u32),
        None => None,
    }
}

/// One connected voice client.
#[derive(Debug)]
pub struct Session {
    /// Session id, the player's net id.
    pub id: u32,
    pub name: String,
    /// Admin mute (server-forced): packets from this session are dropped.
    pub mute: bool,
    /// Self-deaf: this session receives no audio.
    pub self_deaf: bool,
    /// Admin deaf.
    pub deaf: bool,
    /// Positional-audio context. Two sessions exchange position only when their
    /// contexts match.
    pub context: Option<Vec<u8>>,
    /// This client's whisper targets.
    pub targets: TargetRegistry,
}

/// What a [`Session`] holds.
#[verifier::ext_equal]
pub struct SessionModel {
    pub id: u32,
    pub name: Seq<char>,
    pub mute: bool,
    pub self_deaf: bool,
    pub deaf: bool,
    pub context: Option<Seq<u8>>,
    pub targets: Map<u8, TargetModel>,
}

impl View for Session {
    type V = SessionModel;

    open spec fn view(&self) -> SessionModel {
        SessionModel {
            id: self.id,
            name: self.name@,
            mute: self.mute,
            self_deaf: self.self_deaf,
            deaf: self.deaf,
            context: match self.context {
                Some(c) => Some(c@),
                None => None,
            },
            targets: self.targets@,
        }
    }
}

/// A session whose flags are clear and that has neither context nor targets.
pub open spec fn fresh_session(id: u32, name: Seq<char>) -> SessionModel {
    SessionModel {
        id,
        name,
        mute: false,
        self_deaf: false,
        deaf: false,
        context: None,
        targets: Map::empty(),
    }
}

impl SessionModel {
    /// Neither deafened by an admin nor by itself.
    pub open spec fn hears(self) -> bool {
        !self.deaf && !self.self_deaf
    }
}

impl Session {
    fn new(id: u32, name: String) -> (session: Self)
        ensures
            session@ == fresh_session(id, name@),
    {
        Session {
            id,
            name,
            mute: false,
            self_deaf: false,
            deaf: false,
            context: None,
            targets: TargetRegistry::default(),
        }
    }

    /// Whether this session may currently transmit voice.
    pub fn can_speak(&self) -> (yes: bool)
        ensures
            yes == !self.mute,
    {
        !self.mute
    }

    /// Whether this session should receive audio.
    pub fn can_hear(&self) -> (yes: bool)
        ensures
            yes == self@.hears(),
    {
        !self.deaf && !self.self_deaf
    }
}

/// The two sessions both have a context, and it is the same.
pub open spec fn share_context(a: SessionModel, b: SessionModel) -> bool {
    a.context is Some && a.context == b.context
}

/// Registry of all connected voice sessions, keyed by id.
#[derive(Debug)]
pub struct SessionRegistry {
    sessions: IdMap<Session>,
}

impl View for SessionRegistry {
    type V = Map<u32, SessionModel>;

    closed spec fn view(&self) -> Map<u32, SessionModel> {
        self.sessions@.map_values(|s: Session| s@)
    }
}

impl Default for SessionRegistry {
    fn default() -> (registry: Self)
        ensures
            registry.wf(),
            registry@ == Map::<u32, SessionModel>::empty(),
    {
        let registry = SessionRegistry { sessions: IdMap::new() };
        assert(registry@ =~= Map::<u32, SessionModel>::empty());
        registry
    }
}

fn same_bytes(a: &Vec<u8>, b: &Vec<u8>) -> (equal: bool)
    ensures
        equal == (a@ == b@),
{
    if a.len() != b.len() {
        return false;
    }
    let mut i: usize = 0;
    while i < a.len()
        invariant
            i <= a@.len(),
            a@.len() == b@.len(),
            forall|j: int| 0 <= j < i ==> a@[j] == b@[j],
        decreases a@.len() - i,
    {
        if a[i] != b[i] {
            return false;
        }
        i = i + 1;
    }
    assert(a@ =~= b@);
    true
}

impl SessionRegistry {
    pub closed spec fn wf(&self) -> bool {
        self.sessions.wf()
    }

    /// Register a newly authenticated client. A session that is there already is
    /// kept as it is.
    pub fn insert(&mut self, netid: u32, name: String) -> (session: &mut Session)
        requires
            old(self).wf(),
        ensures
            final(self).wf(),
            session@ == if old(self)@.contains_key(netid) {
                old(self)@[netid]
            } else {
                fresh_session(netid, name@)
            },
            final(self)@ == old(self)@.insert(netid, final(session)@),
    {
        if !self.sessions.contains(netid) {
            self.sessions.insert(netid, Session::new(netid, name));
        }
        let ghost stored = self.sessions@;
        match self.sessions.get_mut(netid) {
            Some(session) => {
                assert forall|s: Session|
                    (#[trigger] stored.insert(netid, s)).map_values(|s: Session| s@) == old(
                        self,
                    )@.insert(netid, s@) by {
                    assert(stored.insert(netid, s).map_values(|s: Session| s@) =~= old(
                        self,
                    )@.insert(netid, s@));
                }
                session
            },
            None => vstd::pervasive::unreached(),
        }
    }

    pub fn get(&self, id: u32) -> (session: Option<&Session>)
        requires
            self.wf(),
        ensures
            match session {
                Some(s) => self@.contains_key(id) && s@ == self@[id],
                None => !self@.contains_key(id),
            },
    {
        self.sessions.get(id)
    }

    pub fn get_mut(&mut self, id: u32) -> (session: Option<&mut Session>)
        requires
            old(self).wf(),
        ensures
            final(self).wf(),
            match session {
                Some(s) => old(self)@.contains_key(id) && s@ == old(self)@[id] && final(self)@
                    == old(self)@.insert(id, final(s)@),
                None => !old(self)@.contains_key(id) && final(self)@ == old(self)@,
            },
    {
        let ghost stored = self.sessions@;
        assert forall|s: Session|
            (#[trigger] stored.insert(id, s)).map_values(|s: Session| s@) == old(self)@.insert(
                id,
                s@,
            ) by {
            assert(stored.insert(id, s).map_values(|s: Session| s@) =~= old(self)@.insert(id, s@));
        }
        self.sessions.get_mut(id)
    }

    /// Remove a session on disconnect.
    pub fn remove(&mut self, id: u32) -> (session: Option<Session>)
        requires
            old(self).wf(),
        ensures
            final(self).wf(),
            final(self)@ == old(self)@.remove(id),
            match session {
                Some(s) => old(self)@.contains_key(id) && s@ == old(self)@[id],
                None => !old(self)@.contains_key(id),
            },
    {
        let removed = self.sessions.remove(id);
        assert(self@ =~= old(self)@.remove(id));
        removed
    }

    pub fn len(&self) -> (n: usize)
        requires
            self.wf(),
        ensures
            n == self@.len(),
    {
        assert(self@.dom() =~= self.sessions@.dom());
        self.sessions.len()
    }

    pub fn is_empty(&self) -> (yes: bool)
        requires
            self.wf(),
        ensures
            yes == (self@.len() == 0),
    {
        assert(self@.dom() =~= self.sessions@.dom());
        self.sessions.len() == 0
    }

    /// Do two sessions share a positional context (position may be exchanged)?
    pub fn contexts_match(&self, a: u32, b: u32) -> (yes: bool)
        requires
            self.wf(),
        ensures
            yes == (self@.contains_key(a) && self@.contains_key(b) && share_context(
                self@[a],
                self@[b],
            )),
    {
        match (self.get(a), self.get(b)) {
            (Some(sa), Some(sb)) => match (&sa.context, &sb.context) {
                (Some(ca), Some(cb)) => same_bytes(ca, cb),
                _ => false,
            },
            _ => false,
        }
    }

    /// The ids of all sessions, ascending.
    pub fn ids(&self) -> (ids: Vec<u32>)
        requires
            self.wf(),
        ensures
            crate::ordered::lists(ids@, self@.dom()),
    {
        assert(self@.dom() =~= self.sessions@.dom());
        self.sessions.keys()
    }
}

} // verus!
