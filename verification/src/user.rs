//! Users, and what is known of the one who is signed in.

use std::cmp::Ordering;
use std::sync::Arc;
use vstd::prelude::*;

use crate::decimal::{decimal, to_decimal};
use crate::text_order::{spec_text_order, text_order, HasLogin, TextOrder};

verus! {

/// Identity of a user.
pub type UserId = u64;

/// Identity of a channel.
#[derive(Debug, Clone, Copy, PartialEq, Eq, PartialOrd, Ord, Hash, Structural)]
pub struct ChannelId(pub u64);

impl ChannelId {
    /// Writes the number of a channel.
    pub fn to_string(&self) -> (text: String)
        ensures
            text@ == decimal(self.0 as nat),
    {
        to_decimal(self.0)
    }
}

/// Identity of a project.
#[derive(Debug, Clone, Copy, PartialEq, Eq, PartialOrd, Ord, Hash, Structural)]
pub struct ProjectId(pub u64);

impl ProjectId {
    /// The number of a project, as messages carry it.
    pub fn to_proto(&self) -> (id: u64)
        ensures
            id == self.0,
    {
        self.0
    }
}

/// Identity of a project on a development server.
#[derive(Debug, Clone, Copy, PartialEq, Eq, PartialOrd, Ord, Hash, Structural)]
pub struct DevServerProjectId(pub u64);

/// Place of a participant among those of a call.
#[derive(Debug, Clone, Copy, PartialEq, Eq, Structural)]
pub struct ParticipantIndex(pub u32);

/// A user.
#[derive(Debug)]
pub struct User {
    pub id: UserId,
    pub github_login: String,
    pub avatar_uri: String,
    pub name: Option<String>,
    pub email: Option<String>,
}

/// A user, as messages describe one.
#[derive(Debug)]
pub struct UserMessage {
    pub id: u64,
    pub github_login: String,
    pub avatar_url: String,
    pub name: Option<String>,
    pub email: Option<String>,
}

impl Default for User {
    fn default() -> (user: Self)
        ensures
            user.id == 0,
            user.github_login@.len() == 0,
            user.avatar_uri@.len() == 0,
            user.name is None,
            user.email is None,
    {
        User {
            id: 0,
            github_login: String::new(),
            avatar_uri: String::new(),
            name: None,
            email: None,
        }
    }
}

impl User {
    /// The user that a message describes.
    pub open spec fn of_message(message: UserMessage) -> User {
        User {
            id: message.id,
            github_login: message.github_login,
            avatar_uri: message.avatar_url,
            name: message.name,
            email: message.email,
        }
    }

    /// The user that a message describes.
    pub fn new(message: UserMessage) -> (user: Arc<User>)
        ensures
            *user == User::of_message(message),
    {
        Arc::new(
            User {
                id: message.id,
                github_login: message.github_login,
                avatar_uri: message.avatar_url,
                name: message.name,
                email: message.email,
            },
        )
    }

    /// Whether two users count as the same: identity and login agree.
    pub open spec fn same(self, other: User) -> bool {
        self.id == other.id && self.github_login@ == other.github_login@
    }

    /// Orders users by login.
    pub fn cmp(&self, other: &User) -> (order: Ordering)
        ensures
            order == match spec_text_order(self.github_login@, other.github_login@) {
                TextOrder::Before => Ordering::Less,
                TextOrder::Same => Ordering::Equal,
                TextOrder::After => Ordering::Greater,
            },
    {
        match text_order(self.github_login.as_str(), other.github_login.as_str()) {
            TextOrder::Before => Ordering::Less,
            TextOrder::Same => Ordering::Equal,
            TextOrder::After => Ordering::Greater,
        }
    }
}

impl PartialEq for User {
    fn eq(&self, other: &Self) -> (result: bool) {
        self.id == other.id && self.github_login == other.github_login
    }
}

impl vstd::std_specs::cmp::PartialEqSpecImpl for User {
    open spec fn obeys_eq_spec() -> bool {
        true
    }

    open spec fn eq_spec(&self, other: &Self) -> bool {
        self.same(*other)
    }
}

impl Eq for User {

}

impl PartialOrd for User {
    fn partial_cmp(&self, other: &Self) -> (order: Option<Ordering>) {
        Some(self.cmp(other))
    }
}

impl vstd::std_specs::cmp::PartialOrdSpecImpl for User {
    open spec fn obeys_partial_cmp_spec() -> bool {
        true
    }

    open spec fn partial_cmp_spec(&self, other: &Self) -> Option<Ordering> {
        Some(
            match spec_text_order(self.github_login@, other.github_login@) {
                TextOrder::Before => Ordering::Less,
                TextOrder::Same => Ordering::Equal,
                TextOrder::After => Ordering::Greater,
            },
        )
    }
}

impl HasLogin for User {
    open spec fn login(&self) -> Seq<char> {
        self.github_login@
    }

    fn github_login(&self) -> (login: &String) {
        &self.github_login
    }
}

/// A peer of a connection.
#[derive(Debug, Clone, Copy, PartialEq, Eq, Structural)]
pub struct PeerId {
    pub owner_id: u32,
    pub id: u32,
}

/// Someone who works on the same project.
#[derive(Debug, Clone, Copy, PartialEq, Eq, Structural)]
pub struct Collaborator {
    pub peer_id: PeerId,
    pub replica_id: u16,
    pub user_id: UserId,
    pub is_host: bool,
}

/// Someone who works on the same project, as messages describe one.
#[derive(Debug, Clone, Copy, PartialEq, Eq, Structural)]
pub struct CollaboratorMessage {
    pub peer_id: Option<PeerId>,
    pub replica_id: u32,
    pub user_id: u64,
    pub is_host: bool,
}

/// A message names no peer.
#[derive(Debug, Clone, Copy, PartialEq, Eq, Structural)]
pub struct InvalidPeerId;

impl Collaborator {
    /// Reads a message. One that names no peer is refused. Of the replica only the low bits count.
    pub fn from_proto(message: CollaboratorMessage) -> (result: Result<Self, InvalidPeerId>)
        ensures
            match message.peer_id {
                Some(peer_id) => {
                    &&& result matches Ok(collaborator)
                    &&& collaborator.peer_id == peer_id
                    &&& collaborator.replica_id == message.replica_id % 0x1_0000
                    &&& collaborator.user_id == message.user_id
                    &&& collaborator.is_host == message.is_host
                },
                None => result is Err,
            },
    {
        let replica: u32 = message.replica_id;
        assert(#[verifier::truncate] (replica as u16) == replica % 0x1_0000) by (bit_vector);
        match message.peer_id {
            Some(peer_id) => Ok(
                Collaborator {
                    peer_id,
                    replica_id: #[verifier::truncate] (replica as u16),
                    user_id: message.user_id,
                    is_host: message.is_host,
                },
            ),
            None => Err(InvalidPeerId),
        }
    }
}

/// A contact of the user.
#[derive(Debug)]
pub struct Contact {
    pub user: Arc<User>,
    pub online: bool,
    pub busy: bool,
}

impl PartialEq for Contact {
    fn eq(&self, other: &Self) -> (result: bool) {
        *self.user == *other.user && self.online == other.online && self.busy == other.busy
    }
}

impl vstd::std_specs::cmp::PartialEqSpecImpl for Contact {
    open spec fn obeys_eq_spec() -> bool {
        true
    }

    open spec fn eq_spec(&self, other: &Self) -> bool {
        self.user.same(*other.user) && self.online == other.online && self.busy == other.busy
    }
}

impl HasLogin for Contact {
    open spec fn login(&self) -> Seq<char> {
        self.user.github_login@
    }

    fn github_login(&self) -> (login: &String) {
        &self.user.github_login
    }
}

/// How far a request to become contacts got.
#[derive(Debug, Clone, Copy, PartialEq, Eq, Structural)]
pub enum ContactRequestStatus {
    NotRequested,
    RequestSent,
    RequestReceived,
    RequestAccepted,
}

/// Invitations that the user may hand out.
pub struct InviteInfo {
    pub count: u32,
    pub url: Arc<str>,
}

impl Clone for InviteInfo {
    fn clone(&self) -> (copy: Self)
        ensures
            copy == *self,
    {
        InviteInfo { count: self.count, url: Arc::clone(&self.url) }
    }
}

/// What became of a contact.
#[derive(Debug, Clone, Copy, PartialEq, Eq, Structural)]
pub enum ContactEventKind {
    Requested,
    Accepted,
    Cancelled,
}

/// What happened to a store of users.
#[derive(Debug)]
pub enum Event {
    Contact { user: Arc<User>, kind: ContactEventKind },
    ShowContacts,
    ParticipantIndicesChanged,
    PrivateUserInfoUpdated,
}

/// A user takes every part from its message.
pub proof fn law_user_is_what_its_message_says(message: UserMessage)
    ensures
        ({
            let user = User::of_message(message);
            &&& user.id == message.id
            &&& user.github_login == message.github_login
            &&& user.avatar_uri == message.avatar_url
            &&& user.name == message.name
            &&& user.email == message.email
        }),
{
}

/// Users are the same exactly if identity and login agree, whatever else they say.
pub proof fn law_users_are_told_apart_by_identity_and_login(a: User, b: User)
    ensures
        a.same(b) <==> a.id == b.id && a.github_login@ == b.github_login@,
        a.same(b) ==> b.same(a),
{
}

} // verus!
