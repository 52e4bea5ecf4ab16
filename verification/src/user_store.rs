//! What is known of users, contacts and requests to become contacts.

use std::collections::HashMap;
use std::sync::Arc;
use vstd::hash_map::StringHashMap;
use vstd::prelude::*;
use vstd::std_specs::iter::IteratorSpec;

use crate::text_order::{contains_login, has_login, sorted_by_login, HasLogin};
use crate::user::{
    Contact, ContactRequestStatus, Event, InviteInfo, ParticipantIndex, User, UserId, UserMessage,
};

verus! {

broadcast use vstd::std_specs::hash::group_hash_axioms;

/// A point in time.
#[derive(Debug, Clone, Copy, PartialEq, Eq, Structural)]
pub struct Timestamp {
    /// Seconds since the start of the year 1970, in universal time.
    pub seconds: i64,
    pub nanos: u32,
}

/// A subscription plan, by the number that messages use for it.
#[derive(Debug, Clone, Copy, PartialEq, Eq, Structural)]
pub struct Plan(pub i32);

/// How much of a service may be used.
#[derive(Debug, Clone, Copy, PartialEq, Eq, Structural)]
pub enum UsageLimit {
    Limited(u32),
    Unlimited,
}

/// Why a request to the store failed.
#[derive(Debug, Clone, Copy, PartialEq, Eq, Structural)]
pub enum UserStoreError {
    /// There is no client any more.
    ClientGone,
    UserNotFound(UserId),
    /// The server answered, but without the user.
    NoUsers,
}

/// The answer to a request to become contacts.
#[derive(Debug, Clone, Copy, PartialEq, Eq, Structural)]
pub enum ContactRequestResponse {
    Accept,
    Decline,
    Dismiss,
}

/// A message about becoming contacts.
#[derive(Debug, Clone, Copy, PartialEq, Eq, Structural)]
pub enum ContactMessage {
    RequestContact { responder_id: u64 },
    RespondToContactRequest { requester_id: u64, response: ContactRequestResponse },
}

/// Where a user is found.
#[derive(Debug)]
pub enum UserLookup {
    Cached(Arc<User>),
    /// The users are to be loaded first.
    Load(Vec<u64>),
}

/// The users known so far.
#[verifier::ext_equal]
pub struct Directory {
    /// The users by identity.
    pub users: Map<u64, Arc<User>>,
    /// The identities by login.
    pub logins: Map<Seq<char>, u64>,
}

impl Directory {
    /// What is known once a user is taken in. A user who changed the login is no longer found by the old
    /// one.
    pub open spec fn with(self, user: Arc<User>) -> Directory {
        let renamed = self.users.contains_key(user.id) && self.users[user.id].github_login@
            != user.github_login@;
        let logins = if renamed {
            self.logins.remove(self.users[user.id].github_login@)
        } else {
            self.logins
        };
        Directory {
            users: self.users.insert(user.id, user),
            logins: logins.insert(user.github_login@, user.id),
        }
    }

    /// What is known once several users are taken in, one after another.
    pub open spec fn with_all(self, users: Seq<Arc<User>>) -> Directory
        decreases users.len(),
    {
        if users.len() == 0 {
            self
        } else {
            self.with_all(users.drop_last()).with(users.last())
        }
    }

    /// Whether every identity leads to its user, and every login to a user of that login.
    pub open spec fn sound(self) -> bool {
        &&& forall|id: u64| #[trigger] self.users.contains_key(id) ==> self.users[id].id == id
        &&& forall|login: Seq<char>| #[trigger]
            self.logins.contains_key(login) ==> {
                &&& self.users.contains_key(self.logins[login])
                &&& self.users[self.logins[login]].github_login@ == login
            }
    }

    /// The user of an identity.
    pub open spec fn user(self, id: u64) -> Option<Arc<User>> {
        if self.users.contains_key(id) {
            Some(self.users[id])
        } else {
            None
        }
    }

    /// The user of a login.
    pub open spec fn user_of_login(self, login: Seq<char>) -> Option<Arc<User>> {
        if self.logins.contains_key(login) {
            self.user(self.logins[login])
        } else {
            None
        }
    }
}

/// What is known of users, and of the user who is signed in.
pub struct UserStore {
    pub users: HashMap<u64, Arc<User>>,
    pub by_github_login: StringHashMap<u64>,
    pub participant_indices: HashMap<u64, ParticipantIndex>,
    pub current_plan: Option<Plan>,
    pub subscription_period: Option<(Timestamp, Timestamp)>,
    pub trial_started_at: Option<Timestamp>,
    pub model_request_usage_amount: Option<u32>,
    pub model_request_usage_limit: Option<UsageLimit>,
    pub edit_predictions_usage_amount: Option<u32>,
    pub edit_predictions_usage_limit: Option<UsageLimit>,
    pub is_usage_based_billing_enabled: Option<bool>,
    pub account_too_young: Option<bool>,
    pub has_overdue_invoices: Option<bool>,
    pub current_user: Option<Arc<User>>,
    pub accepted_tos_at: Option<Option<Timestamp>>,
    /// The contacts, sorted by login.
    pub contacts: Vec<Arc<Contact>>,
    /// Those who asked to become contacts, sorted by login.
    pub incoming_contact_requests: Vec<Arc<User>>,
    /// Those who were asked to become contacts, sorted by login.
    pub outgoing_contact_requests: Vec<Arc<User>>,
    /// How many requests about a user await an answer.
    pub pending_contact_requests: HashMap<u64, usize>,
    pub invite_info: Option<InviteInfo>,
}

/// Whether the rows of two maps agree wherever the first has one.
pub open spec fn is_part_of(
    part: Map<u64, ParticipantIndex>,
    whole: Map<u64, ParticipantIndex>,
) -> bool {
    forall|key: u64| #[trigger]
        part.contains_key(key) ==> whole.contains_key(key) && whole[key] == part[key]
}

/// Lists the keys of a map.
fn keys_of(map: &HashMap<u64, ParticipantIndex>) -> (list: Vec<u64>)
    ensures
        forall|key: u64| list@.contains(key) <==> #[trigger] map@.contains_key(key),
{
    let mut list: Vec<u64> = Vec::new();
    let ghost all = map.keys().remaining().unref();
    for key in keys: map.keys()
        invariant
            keys.seq().unref() == all,
            list@ == all.take(keys.index() as int),
    {
        list.push(*key);
        assert(all.take(keys.index() + 1) =~= all.take(keys.index() as int).push(*key));
    }
    assert(all.take(all.len() as int) =~= all);
    assert(all.to_set() == map@.dom());
    assert forall|key: u64| list@.contains(key) <==> #[trigger] map@.contains_key(key) by {
        assert(list@.to_set().contains(key) == map@.dom().contains(key));
    }
    list
}

/// Tells whether the rows of two maps agree wherever the first has one.
fn part_of(
    part: &HashMap<u64, ParticipantIndex>,
    whole: &HashMap<u64, ParticipantIndex>,
) -> (result: bool)
    ensures
        result == is_part_of(part@, whole@),
{
    let keys = keys_of(part);
    let mut i: usize = 0;
    while i < keys.len()
        invariant
            i <= keys@.len(),
            forall|key: u64| keys@.contains(key) <==> #[trigger] part@.contains_key(key),
            forall|j: int|
                0 <= j < i ==> whole@.contains_key(#[trigger] keys@[j]) && whole@[keys@[j]]
                    == part@[keys@[j]],
        decreases keys@.len() - i,
    {
        let key = keys[i];
        assert(keys@.contains(key));
        assert(part@.contains_key(key));
        let same = match (part.get(&key), whole.get(&key)) {
            (Some(first), Some(second)) => *first == *second,
            _ => false,
        };
        if !same {
            return false;
        }
        i = i + 1;
    }
    assert forall|key: u64| #[trigger] part@.contains_key(key) implies whole@.contains_key(key)
        && whole@[key] == part@[key] by {
        let j = choose|j: int| 0 <= j < keys@.len() && keys@[j] == key;
        assert(keys@[j] == key);
    }
    true
}

/// Whether two maps are alike.
fn same_indices(
    first: &HashMap<u64, ParticipantIndex>,
    second: &HashMap<u64, ParticipantIndex>,
) -> (result: bool)
    ensures
        result == (first@ == second@),
{
    let result = part_of(first, second) && part_of(second, first);
    assert(result ==> first@ =~= second@);
    result
}

/// The users among given ones that are not known.
pub open spec fn unknown_users(directory: Directory, ids: Seq<u64>) -> Seq<u64> {
    ids.filter(|id: u64| !directory.users.contains_key(id))
}

/// The requests that await an answer once there is one more about a user.
pub open spec fn request_begun(pending: Map<u64, usize>, user_id: u64) -> Map<u64, usize> {
    let count: int = if pending.contains_key(user_id) {
        pending[user_id] as int
    } else {
        0
    };
    pending.insert(user_id, (count + 1) as usize)
}

/// The requests that await an answer once there is one less about a user.
pub open spec fn request_ended(pending: Map<u64, usize>, user_id: u64) -> Map<u64, usize> {
    if !pending.contains_key(user_id) {
        pending
    } else if pending[user_id] == 1 {
        pending.remove(user_id)
    } else {
        pending.insert(user_id, (pending[user_id] - 1) as usize)
    }
}

impl UserStore {
    /// The users known so far.
    pub open spec fn directory(self) -> Directory {
        Directory { users: self.users@, logins: self.by_github_login@ }
    }

    /// Users are found as they are, lists are sorted, and no request is counted that does not await an
    /// answer.
    pub open spec fn well_formed(self) -> bool {
        &&& self.directory().sound()
        &&& sorted_by_login(self.contacts@)
        &&& sorted_by_login(self.incoming_contact_requests@)
        &&& sorted_by_login(self.outgoing_contact_requests@)
        &&& forall|id: u64| #[trigger]
            self.pending_contact_requests@.contains_key(id) ==> self.pending_contact_requests@[id]
                > 0
    }

    /// How far a request to become contacts with a user got. Being contacts goes before having asked,
    /// which goes before having been asked.
    pub open spec fn request_status(self, user: User) -> ContactRequestStatus {
        let login = user.github_login@;
        if has_login(self.contacts@, login) {
            ContactRequestStatus::RequestAccepted
        } else if has_login(self.outgoing_contact_requests@, login) {
            ContactRequestStatus::RequestSent
        } else if has_login(self.incoming_contact_requests@, login) {
            ContactRequestStatus::RequestReceived
        } else {
            ContactRequestStatus::NotRequested
        }
    }

    /// A store that knows nothing.
    pub fn new() -> (store: Self)
        ensures
            store.well_formed(),
            store.users@ == Map::<u64, Arc<User>>::empty(),
            store.by_github_login@ == Map::<Seq<char>, u64>::empty(),
            store.participant_indices@ == Map::<u64, ParticipantIndex>::empty(),
            store.current_plan is None,
            store.subscription_period is None,
            store.trial_started_at is None,
            store.model_request_usage_amount is None,
            store.model_request_usage_limit is None,
            store.edit_predictions_usage_amount is None,
            store.edit_predictions_usage_limit is None,
            store.is_usage_based_billing_enabled is None,
            store.account_too_young is None,
            store.has_overdue_invoices is None,
            store.current_user is None,
            store.accepted_tos_at is None,
            store.contacts@.len() == 0,
            store.incoming_contact_requests@.len() == 0,
            store.outgoing_contact_requests@.len() == 0,
            store.pending_contact_requests@ == Map::<u64, usize>::empty(),
            store.invite_info is None,
    {
        UserStore {
            users: HashMap::new(),
            by_github_login: StringHashMap::new(),
            participant_indices: HashMap::new(),
            current_plan: None,
            subscription_period: None,
            trial_started_at: None,
            model_request_usage_amount: None,
            model_request_usage_limit: None,
            edit_predictions_usage_amount: None,
            edit_predictions_usage_limit: None,
            is_usage_based_billing_enabled: None,
            account_too_young: None,
            has_overdue_invoices: None,
            current_user: None,
            accepted_tos_at: None,
            contacts: Vec::new(),
            incoming_contact_requests: Vec::new(),
            outgoing_contact_requests: Vec::new(),
            pending_contact_requests: HashMap::new(),
            invite_info: None,
        }
    }

    /// Forgets the users.
    pub fn clear_cache(&mut self)
        ensures
            *final(self) == (UserStore {
                users: final(self).users,
                by_github_login: final(self).by_github_login,
                ..*old(self)
            }),
            final(self).users@ == Map::<u64, Arc<User>>::empty(),
            final(self).by_github_login@ == Map::<Seq<char>, u64>::empty(),
            old(self).well_formed() ==> final(self).well_formed(),
    {
        self.users.clear();
        self.by_github_login.clear();
    }

    /// The invitations that the user may hand out.
    pub fn invite_info(&self) -> (info: Option<&InviteInfo>)
        ensures
            match info {
                Some(info) => self.invite_info == Some(*info),
                None => self.invite_info is None,
            },
    {
        self.invite_info.as_ref()
    }

    /// The contacts, sorted by login.
    pub fn contacts(&self) -> (contacts: &[Arc<Contact>])
        ensures
            contacts@ == self.contacts@,
    {
        self.contacts.as_slice()
    }

    /// Tells whether a user is a contact.
    pub fn has_contact(&self, user: &Arc<User>) -> (result: bool)
        requires
            sorted_by_login(self.contacts@),
        ensures
            result == has_login(self.contacts@, user.github_login@),
    {
        contains_login(&self.contacts, user.github_login.as_str())
    }

    /// Those who asked to become contacts.
    pub fn incoming_contact_requests(&self) -> (users: &[Arc<User>])
        ensures
            users@ == self.incoming_contact_requests@,
    {
        self.incoming_contact_requests.as_slice()
    }

    /// Those who were asked to become contacts.
    pub fn outgoing_contact_requests(&self) -> (users: &[Arc<User>])
        ensures
            users@ == self.outgoing_contact_requests@,
    {
        self.outgoing_contact_requests.as_slice()
    }

    /// Tells whether a request about a user awaits an answer.
    pub fn is_contact_request_pending(&self, user: &User) -> (result: bool)
        ensures
            result == self.pending_contact_requests@.contains_key(user.id),
    {
        self.pending_contact_requests.contains_key(&user.id)
    }

    /// Tells how far a request to become contacts with a user got.
    pub fn contact_request_status(&self, user: &User) -> (status: ContactRequestStatus)
        requires
            sorted_by_login(self.contacts@),
            sorted_by_login(self.outgoing_contact_requests@),
            sorted_by_login(self.incoming_contact_requests@),
        ensures
            status == self.request_status(*user),
    {
        let login = user.github_login.as_str();
        if contains_login(&self.contacts, login) {
            ContactRequestStatus::RequestAccepted
        } else if contains_login(&self.outgoing_contact_requests, login) {
            ContactRequestStatus::RequestSent
        } else if contains_login(&self.incoming_contact_requests, login) {
            ContactRequestStatus::RequestReceived
        } else {
            ContactRequestStatus::NotRequested
        }
    }

    /// Tells whether a user asked to become a contact.
    pub fn has_incoming_contact_request(&self, user_id: u64) -> (result: bool)
        ensures
            result == exists|i: int|
                0 <= i < self.incoming_contact_requests@.len()
                    && #[trigger] self.incoming_contact_requests@[i].id == user_id,
    {
        let mut i: usize = 0;
        while i < self.incoming_contact_requests.len()
            invariant
                i <= self.incoming_contact_requests@.len(),
                forall|j: int|
                    0 <= j < i ==> #[trigger] self.incoming_contact_requests@[j].id != user_id,
            decreases self.incoming_contact_requests@.len() - i,
        {
            if self.incoming_contact_requests[i].id == user_id {
                return true;
            }
            i = i + 1;
        }
        false
    }

    /// Takes note of a request about a user, and returns whether it can be sent. One that cannot stays
    /// counted.
    pub fn perform_contact_request(
        &mut self,
        user_id: u64,
        client_available: bool,
    ) -> (result: Result<(), UserStoreError>)
        requires
            old(self).pending_contact_requests@.contains_key(user_id)
                ==> old(self).pending_contact_requests@[user_id] < usize::MAX,
        ensures
            *final(self) == (UserStore {
                pending_contact_requests: final(self).pending_contact_requests,
                ..*old(self)
            }),
            final(self).pending_contact_requests@ == request_begun(
                old(self).pending_contact_requests@,
                user_id,
            ),
            old(self).well_formed() ==> final(self).well_formed(),
            result == if client_available {
                Ok::<(), UserStoreError>(())
            } else {
                Err(UserStoreError::ClientGone)
            },
    {
        let count: usize = match self.pending_contact_requests.remove(&user_id) {
            Some(count) => count,
            None => 0,
        };
        self.pending_contact_requests.insert(user_id, count + 1);
        assert(self.pending_contact_requests@ =~= request_begun(
            old(self).pending_contact_requests@,
            user_id,
        ));
        if client_available {
            Ok(())
        } else {
            Err(UserStoreError::ClientGone)
        }
    }

    /// Takes note that a request about a user was answered.
    pub fn finish_contact_request(&mut self, user_id: u64)
        requires
            old(self).well_formed(),
        ensures
            *final(self) == (UserStore {
                pending_contact_requests: final(self).pending_contact_requests,
                ..*old(self)
            }),
            final(self).pending_contact_requests@ == request_ended(
                old(self).pending_contact_requests@,
                user_id,
            ),
            final(self).well_formed(),
    {
        if let Some(count) = self.pending_contact_requests.remove(&user_id) {
            if count > 1 {
                self.pending_contact_requests.insert(user_id, count - 1);
            }
        }
        assert(self.pending_contact_requests@ =~= request_ended(
            old(self).pending_contact_requests@,
            user_id,
        ));
    }

    /// Asks a user to become a contact, and returns the message to send.
    pub fn request_contact(
        &mut self,
        responder_id: u64,
        client_available: bool,
    ) -> (result: Result<ContactMessage, UserStoreError>)
        requires
            old(self).pending_contact_requests@.contains_key(responder_id)
                ==> old(self).pending_contact_requests@[responder_id] < usize::MAX,
        ensures
            *final(self) == (UserStore {
                pending_contact_requests: final(self).pending_contact_requests,
                ..*old(self)
            }),
            final(self).pending_contact_requests@ == request_begun(
                old(self).pending_contact_requests@,
                responder_id,
            ),
            old(self).well_formed() ==> final(self).well_formed(),
            result == if client_available {
                Ok(ContactMessage::RequestContact { responder_id })
            } else {
                Err(UserStoreError::ClientGone)
            },
    {
        match self.perform_contact_request(responder_id, client_available) {
            Ok(()) => Ok(ContactMessage::RequestContact { responder_id }),
            Err(error) => Err(error),
        }
    }

    /// Answers a user who asked to become a contact, and returns the message to send.
    pub fn respond_to_contact_request(
        &mut self,
        requester_id: u64,
        accept: bool,
        client_available: bool,
    ) -> (result: Result<ContactMessage, UserStoreError>)
        requires
            old(self).pending_contact_requests@.contains_key(requester_id)
                ==> old(self).pending_contact_requests@[requester_id] < usize::MAX,
        ensures
            *final(self) == (UserStore {
                pending_contact_requests: final(self).pending_contact_requests,
                ..*old(self)
            }),
            final(self).pending_contact_requests@ == request_begun(
                old(self).pending_contact_requests@,
                requester_id,
            ),
            old(self).well_formed() ==> final(self).well_formed(),
            result == if client_available {
                Ok(
                    ContactMessage::RespondToContactRequest {
                        requester_id,
                        response: if accept {
                            ContactRequestResponse::Accept
                        } else {
                            ContactRequestResponse::Decline
                        },
                    },
                )
            } else {
                Err(UserStoreError::ClientGone)
            },
    {
        match self.perform_contact_request(requester_id, client_available) {
            Ok(()) => {
                let response = if accept {
                    ContactRequestResponse::Accept
                } else {
                    ContactRequestResponse::Decline
                };
                Ok(ContactMessage::RespondToContactRequest { requester_id, response })
            },
            Err(error) => Err(error),
        }
    }

    /// Dismisses a request to become contacts, and returns the message to send. It is not counted.
    pub fn dismiss_contact_request(
        &self,
        requester_id: u64,
        client_available: bool,
    ) -> (result: Result<ContactMessage, UserStoreError>)
        ensures
            result == if client_available {
                Ok(
                    ContactMessage::RespondToContactRequest {
                        requester_id,
                        response: ContactRequestResponse::Dismiss,
                    },
                )
            } else {
                Err(UserStoreError::ClientGone)
            },
    {
        if client_available {
            Ok(
                ContactMessage::RespondToContactRequest {
                    requester_id,
                    response: ContactRequestResponse::Dismiss,
                },
            )
        } else {
            Err(UserStoreError::ClientGone)
        }
    }

    /// Removing a contact is left to the server, and changes nothing here.
    pub fn remove_contact(&mut self, _user_id: u64)
        ensures
            *final(self) == *old(self),
    {
    }

    /// The users to load before given ones are all known.
    pub fn get_users(&self, user_ids: &Vec<u64>) -> (to_fetch: Vec<u64>)
        ensures
            to_fetch@ == unknown_users(self.directory(), user_ids@),
    {
        let ghost directory = self.directory();
        let ghost unknown = |id: u64| !directory.users.contains_key(id);
        let mut to_fetch: Vec<u64> = Vec::new();
        let mut i: usize = 0;
        proof {
            reveal(Seq::filter);
            assert(user_ids@.take(0) =~= Seq::<u64>::empty());
        }
        while i < user_ids.len()
            invariant
                i <= user_ids@.len(),
                directory == self.directory(),
                unknown == |id: u64| !directory.users.contains_key(id),
                to_fetch@ == user_ids@.take(i as int).filter(unknown),
            decreases user_ids@.len() - i,
        {
            proof {
                reveal(Seq::filter);
                assert(user_ids@.take(i + 1).drop_last() =~= user_ids@.take(i as int));
            }
            let id = user_ids[i];
            if !self.users.contains_key(&id) {
                to_fetch.push(id);
            }
            i = i + 1;
        }
        assert(user_ids@.take(i as int) =~= user_ids@);
        to_fetch
    }

    /// Given users, once those that were to be loaded are. The first that is still not known is
    /// reported.
    pub fn loaded_users(&self, user_ids: &Vec<u64>) -> (result: Result<
        Vec<Arc<User>>,
        UserStoreError,
    >)
        ensures
            match result {
                Ok(users) => {
                    &&& users@.len() == user_ids@.len()
                    &&& forall|i: int|
                        0 <= i < user_ids@.len() ==> self.directory().user(#[trigger] user_ids@[i])
                            == Some(users@[i])
                },
                Err(error) => exists|i: int|
                    {
                        &&& 0 <= i < user_ids@.len()
                        &&& error == UserStoreError::UserNotFound(#[trigger] user_ids@[i])
                        &&& self.directory().user(user_ids@[i]) is None
                        &&& forall|j: int|
                            0 <= j < i ==> self.directory().user(#[trigger] user_ids@[j]) is Some
                    },
            },
    {
        let mut users: Vec<Arc<User>> = Vec::new();
        let mut i: usize = 0;
        while i < user_ids.len()
            invariant
                i <= user_ids@.len(),
                users@.len() == i,
                forall|j: int|
                    0 <= j < i ==> self.directory().user(#[trigger] user_ids@[j]) == Some(users@[j]),
            decreases user_ids@.len() - i,
        {
            let id = user_ids[i];
            match self.users.get(&id) {
                Some(user) => {
                    users.push(Arc::clone(user));
                },
                None => {
                    assert(user_ids@[i as int] == id);
                    return Err(UserStoreError::UserNotFound(id));
                },
            }
            i = i + 1;
        }
        Ok(users)
    }

    /// The user of an identity, if known.
    pub fn get_cached_user(&self, user_id: u64) -> (user: Option<Arc<User>>)
        ensures
            user == self.directory().user(user_id),
    {
        match self.users.get(&user_id) {
            Some(user) => Some(Arc::clone(user)),
            None => None,
        }
    }

    /// The user of an identity, or which users to load first.
    pub fn get_user(&self, user_id: u64) -> (lookup: UserLookup)
        ensures
            match self.directory().user(user_id) {
                Some(user) => lookup == UserLookup::Cached(user),
                None => lookup matches UserLookup::Load(ids) && ids@ == seq![user_id],
            },
    {
        match self.get_cached_user(user_id) {
            Some(user) => UserLookup::Cached(user),
            None => {
                let mut ids: Vec<u64> = Vec::new();
                ids.push(user_id);
                let to_fetch = self.get_users(&ids);
                proof {
                    reveal(Seq::filter);
                    let unknown = |id: u64| !self.directory().users.contains_key(id);
                    assert(ids@.drop_last() =~= Seq::<u64>::empty());
                    assert(Seq::<u64>::empty().filter(unknown) =~= Seq::<u64>::empty());
                    assert(ids@.filter(unknown) =~= seq![user_id]);
                }
                UserLookup::Load(to_fetch)
            },
        }
    }

    /// The user of an identity for a caller who does not wait. One who is not known is to be loaded
    /// meanwhile.
    pub fn get_user_optimistic(&self, user_id: u64) -> (lookup: UserLookup)
        ensures
            match self.directory().user(user_id) {
                Some(user) => lookup == UserLookup::Cached(user),
                None => lookup matches UserLookup::Load(ids) && ids@ == seq![user_id],
            },
    {
        self.get_user(user_id)
    }

    /// The user of an identity, once it was to be loaded.
    pub fn loaded_user(&self, user_id: u64) -> (result: Result<Arc<User>, UserStoreError>)
        ensures
            match self.directory().user(user_id) {
                Some(user) => result == Ok::<Arc<User>, UserStoreError>(user),
                None => result == Err::<Arc<User>, UserStoreError>(UserStoreError::NoUsers),
            },
    {
        match self.get_cached_user(user_id) {
            Some(user) => Ok(user),
            None => Err(UserStoreError::NoUsers),
        }
    }

    /// The user of a login, if known.
    pub fn cached_user_by_github_login(&self, github_login: &str) -> (user: Option<Arc<User>>)
        ensures
            user == self.directory().user_of_login(github_login@),
    {
        match self.by_github_login.get(github_login) {
            Some(id) => self.get_cached_user(*id),
            None => None,
        }
    }

    /// Takes in users, and returns them.
    pub fn insert(&mut self, users: Vec<UserMessage>) -> (inserted: Vec<Arc<User>>)
        ensures
            *final(self) == (UserStore {
                users: final(self).users,
                by_github_login: final(self).by_github_login,
                ..*old(self)
            }),
            inserted@.len() == users@.len(),
            forall|i: int|
                0 <= i < users@.len() ==> *#[trigger] inserted@[i] == User::of_message(users@[i]),
            final(self).directory() == old(self).directory().with_all(inserted@),
            old(self).well_formed() ==> final(self).well_formed(),
    {
        let ghost start = self.directory();
        let mut inserted: Vec<Arc<User>> = Vec::new();
        let ghost messages = users@;
        for message in it: users
            invariant
                it.seq() == messages,
                inserted@.len() == it.index(),
                forall|i: int|
                    0 <= i < inserted@.len() ==> *#[trigger] inserted@[i] == User::of_message(
                        messages[i],
                    ),
                self.directory() == start.with_all(inserted@),
                *self == (UserStore {
                    users: self.users,
                    by_github_login: self.by_github_login,
                    ..*old(self)
                }),
        {
            let ghost known = self.directory();
            let user = User::new(message);
            let login = user.github_login.clone();
            if let Some(replaced) = self.users.insert(user.id, Arc::clone(&user)) {
                if replaced.github_login != user.github_login {
                    self.by_github_login.remove(replaced.github_login.as_str());
                }
            }
            self.by_github_login.insert(login, user.id);
            assert(self.directory() =~= known.with(user));
            let ghost before = inserted@;
            inserted.push(user);
            assert(inserted@.drop_last() =~= before);
        }
        proof {
            if old(self).well_formed() {
                law_directory_stays_sound(start, inserted@);
            }
        }
        inserted
    }

    /// Takes in the users that the server answered with. Without a client there are none.
    pub fn load_users(&mut self, response: Option<Vec<UserMessage>>) -> (loaded: Vec<Arc<User>>)
        ensures
            *final(self) == (UserStore {
                users: final(self).users,
                by_github_login: final(self).by_github_login,
                ..*old(self)
            }),
            match response {
                Some(users) => {
                    &&& loaded@.len() == users@.len()
                    &&& forall|i: int|
                        0 <= i < users@.len() ==> *#[trigger] loaded@[i] == User::of_message(
                            users@[i],
                        )
                    &&& final(self).directory() == old(self).directory().with_all(loaded@)
                },
                None => loaded@.len() == 0 && *final(self) == *old(self),
            },
            old(self).well_formed() ==> final(self).well_formed(),
    {
        match response {
            Some(users) => self.insert(users),
            None => Vec::new(),
        }
    }

    /// Sets the places of the participants, and returns what happened, if they changed.
    pub fn set_participant_indices(
        &mut self,
        participant_indices: HashMap<u64, ParticipantIndex>,
    ) -> (event: Option<Event>)
        ensures
            *final(self) == (UserStore {
                participant_indices: final(self).participant_indices,
                ..*old(self)
            }),
            final(self).participant_indices@ == participant_indices@,
            event == if old(self).participant_indices@ == participant_indices@ {
                None
            } else {
                Some(Event::ParticipantIndicesChanged)
            },
            event is None ==> *final(self) == *old(self),
            old(self).well_formed() ==> final(self).well_formed(),
    {
        if same_indices(&participant_indices, &self.participant_indices) {
            None
        } else {
            self.participant_indices = participant_indices;
            Some(Event::ParticipantIndicesChanged)
        }
    }

    /// The places of the participants.
    pub fn participant_indices(&self) -> (indices: &HashMap<u64, ParticipantIndex>)
        ensures
            *indices == self.participant_indices,
    {
        &self.participant_indices
    }

    /// The logins of given users as far as they are known, and the users that are to be loaded.
    pub fn participant_names(&self, user_ids: &Vec<u64>) -> (names: (
        HashMap<u64, String>,
        Vec<u64>,
    ))
        ensures
            forall|id: u64| #[trigger]
                names.0@.contains_key(id) <==> user_ids@.contains(id) && self.users@.contains_key(
                    id,
                ),
            forall|id: u64| #[trigger]
                names.0@.contains_key(id) ==> names.0@[id]@ == self.users@[id].github_login@,
            names.1@ == unknown_users(self.directory(), user_ids@),
    {
        let mut names: HashMap<u64, String> = HashMap::new();
        let mut i: usize = 0;
        while i < user_ids.len()
            invariant
                i <= user_ids@.len(),
                forall|id: u64| #[trigger]
                    names@.contains_key(id) <==> user_ids@.take(i as int).contains(id)
                        && self.users@.contains_key(id),
                forall|id: u64| #[trigger]
                    names@.contains_key(id) ==> names@[id]@ == self.users@[id].github_login@,
            decreases user_ids@.len() - i,
        {
            let id = user_ids[i];
            proof {
                let next = user_ids@.take(i + 1);
                assert(next =~= user_ids@.take(i as int).push(id));
                assert forall|k: u64| next.contains(k) <==> user_ids@.take(i as int).contains(k)
                    || k == id by {
                    if user_ids@.take(i as int).contains(k) {
                        let j = choose|j: int| 0 <= j < i && user_ids@.take(i as int)[j] == k;
                        assert(next[j] == k);
                    }
                    if k == id {
                        assert(next[i as int] == k);
                    }
                }
            }
            if let Some(user) = self.users.get(&id) {
                names.insert(id, user.github_login.clone());
            }
            i = i + 1;
        }
        assert(user_ids@.take(i as int) =~= user_ids@);
        (names, self.get_users(user_ids))
    }

    /// The user who is signed in.
    pub fn current_user(&self) -> (user: Option<Arc<User>>)
        ensures
            user == self.current_user,
    {
        match &self.current_user {
            Some(user) => Some(Arc::clone(user)),
            None => None,
        }
    }

    /// The user's plan.
    pub fn current_plan(&self) -> (plan: Option<Plan>)
        ensures
            plan == self.current_plan,
    {
        self.current_plan
    }

    /// When the user's subscription starts and ends.
    pub fn subscription_period(&self) -> (period: Option<(Timestamp, Timestamp)>)
        ensures
            period == self.subscription_period,
    {
        self.subscription_period
    }

    /// When the user's trial started.
    pub fn trial_started_at(&self) -> (start: Option<Timestamp>)
        ensures
            start == self.trial_started_at,
    {
        self.trial_started_at
    }

    /// Whether the user pays by usage.
    pub fn usage_based_billing_enabled(&self) -> (enabled: Option<bool>)
        ensures
            enabled == self.is_usage_based_billing_enabled,
    {
        self.is_usage_based_billing_enabled
    }

    /// How many model requests the user made.
    pub fn model_request_usage_amount(&self) -> (amount: Option<u32>)
        ensures
            amount == self.model_request_usage_amount,
    {
        self.model_request_usage_amount
    }

    /// How many model requests the user may make.
    pub fn model_request_usage_limit(&self) -> (limit: Option<UsageLimit>)
        ensures
            limit == self.model_request_usage_limit,
    {
        self.model_request_usage_limit
    }

    /// How many edit predictions the user got.
    pub fn edit_predictions_usage_amount(&self) -> (amount: Option<u32>)
        ensures
            amount == self.edit_predictions_usage_amount,
    {
        self.edit_predictions_usage_amount
    }

    /// How many edit predictions the user may get.
    pub fn edit_predictions_usage_limit(&self) -> (limit: Option<UsageLimit>)
        ensures
            limit == self.edit_predictions_usage_limit,
    {
        self.edit_predictions_usage_limit
    }

    /// Tells whether the user's account is too new to use the service. One of unknown age is not.
    pub fn account_too_young(&self) -> (result: bool)
        ensures
            result == (self.account_too_young == Some(true)),
    {
        match self.account_too_young {
            Some(too_young) => too_young,
            None => false,
        }
    }

    /// Tells whether the user has overdue invoices, so that usage should be blocked. Where nothing is
    /// known, there are none.
    pub fn has_overdue_invoices(&self) -> (result: bool)
        ensures
            result == (self.has_overdue_invoices == Some(true)),
    {
        match self.has_overdue_invoices {
            Some(overdue) => overdue,
            None => false,
        }
    }

    /// Tells whether the user accepted the terms, which every user has.
    pub fn current_user_has_accepted_terms(&self) -> (accepted: Option<bool>)
        ensures
            accepted == Some(true),
    {
        Some(true)
    }
}

proof fn lemma_with_stays_sound(directory: Directory, user: Arc<User>)
    requires
        directory.sound(),
    ensures
        directory.with(user).sound(),
{
    let next = directory.with(user);
    assert forall|login: Seq<char>| #[trigger] next.logins.contains_key(login) implies {
        &&& next.users.contains_key(next.logins[login])
        &&& next.users[next.logins[login]].github_login@ == login
    } by {
        if login != user.github_login@ {
            assert(directory.logins.contains_key(login));
        }
    }
}

/// Taking in users keeps every identity leading to its user, and every login to a user of that
/// login.
pub proof fn law_directory_stays_sound(directory: Directory, users: Seq<Arc<User>>)
    requires
        directory.sound(),
    ensures
        directory.with_all(users).sound(),
    decreases users.len(),
{
    if users.len() > 0 {
        law_directory_stays_sound(directory, users.drop_last());
        lemma_with_stays_sound(directory.with_all(users.drop_last()), users.last());
    }
}

/// Whoever is found by a login has that login.
pub proof fn law_login_finds_its_user(directory: Directory, login: Seq<char>)
    requires
        directory.sound(),
    ensures
        directory.user_of_login(login) matches Some(user) ==> user.github_login@ == login,
{
}

/// The user taken in last is found by identity and by login.
pub proof fn law_last_inserted_user_is_found(directory: Directory, users: Seq<Arc<User>>)
    requires
        users.len() > 0,
    ensures
        directory.with_all(users).user(users.last().id) == Some(users.last()),
        directory.with_all(users).user_of_login(users.last().github_login@) == Some(users.last()),
{
}

/// A user who changed the login is no longer found by the old one.
pub proof fn law_old_login_is_forgotten(directory: Directory, user: Arc<User>)
    requires
        directory.users.contains_key(user.id),
        directory.users[user.id].github_login@ != user.github_login@,
    ensures
        directory.with(user).user_of_login(directory.users[user.id].github_login@) is None,
{
}

/// Once the users to load are taken in, nothing of what was asked for is missing.
pub proof fn law_loading_what_is_missing_suffices(
    directory: Directory,
    ids: Seq<u64>,
    loaded: Seq<Arc<User>>,
)
    requires
        forall|id: u64| #[trigger]
            unknown_users(directory, ids).contains(id) ==> exists|i: int|
                0 <= i < loaded.len() && #[trigger] loaded[i].id == id,
    ensures
        forall|i: int|
            0 <= i < ids.len() ==> directory.with_all(loaded).users.contains_key(
                #[trigger] ids[i],
            ),
{
    lemma_users_stay_known(directory, loaded);
    assert forall|i: int| 0 <= i < ids.len() implies directory.with_all(loaded).users.contains_key(
        #[trigger] ids[i],
    ) by {
        if !directory.users.contains_key(ids[i]) {
            lemma_filter_keeps(ids, |id: u64| !directory.users.contains_key(id), i);
            assert(unknown_users(directory, ids).contains(ids[i]));
        }
    }
}

proof fn lemma_users_stay_known(directory: Directory, loaded: Seq<Arc<User>>)
    ensures
        directory.users.dom().subset_of(directory.with_all(loaded).users.dom()),
        forall|i: int|
            0 <= i < loaded.len() ==> directory.with_all(loaded).users.contains_key(
                (#[trigger] loaded[i]).id,
            ),
    decreases loaded.len(),
{
    if loaded.len() > 0 {
        let before = loaded.drop_last();
        lemma_users_stay_known(directory, before);
        assert forall|i: int| 0 <= i < loaded.len() implies directory.with_all(
            loaded,
        ).users.contains_key((#[trigger] loaded[i]).id) by {
            if i < before.len() {
                assert(before[i] == loaded[i]);
            }
        }
    }
}

proof fn lemma_filter_keeps(ids: Seq<u64>, wanted: spec_fn(u64) -> bool, i: int)
    requires
        0 <= i < ids.len(),
        wanted(ids[i]),
    ensures
        ids.filter(wanted).contains(ids[i]),
    decreases ids.len(),
{
    reveal(Seq::filter);
    let before = ids.drop_last();
    if i < before.len() {
        lemma_filter_keeps(before, wanted, i);
        let j = choose|j: int|
            0 <= j < before.filter(wanted).len() && before.filter(wanted)[j] == ids[i];
        assert(ids.filter(wanted)[j] == ids[i]);
    } else {
        assert(ids.filter(wanted).last() == ids[i]);
    }
}

/// A request that is sent and answered leaves the count of pending requests as it was.
pub proof fn law_answered_request_leaves_no_trace(pending: Map<u64, usize>, user_id: u64)
    requires
        pending.contains_key(user_id) ==> 0 < pending[user_id] < usize::MAX,
    ensures
        request_ended(request_begun(pending, user_id), user_id) == pending,
{
    assert(request_ended(request_begun(pending, user_id), user_id) =~= pending);
}

/// A request about one user does not touch those about another.
pub proof fn law_requests_do_not_mix(pending: Map<u64, usize>, user_id: u64, other: u64)
    requires
        user_id != other,
    ensures
        request_begun(pending, user_id).contains_key(other) == pending.contains_key(other),
        request_ended(pending, user_id).contains_key(other) == pending.contains_key(other),
        pending.contains_key(other) ==> request_begun(pending, user_id)[other] == pending[other]
            && request_ended(pending, user_id)[other] == pending[other],
{
}

/// A user is a contact exactly if the request to become contacts was accepted.
pub proof fn law_contacts_are_accepted_requests(store: UserStore, user: User)
    ensures
        has_login(store.contacts@, user.github_login@) <==> store.request_status(user)
            == ContactRequestStatus::RequestAccepted,
{
}

/// Taking in a user leaves the others as they are, by identity.
pub proof fn law_other_users_stay(directory: Directory, user: Arc<User>, id: u64)
    requires
        id != user.id,
    ensures
        directory.with(user).user(id) == directory.user(id),
{
}

/// Taking in a user leaves the others findable by login: only the login that the user had before is
/// given up.
pub proof fn law_other_logins_stay(directory: Directory, user: Arc<User>, login: Seq<char>)
    requires
        directory.sound(),
        login != user.github_login@,
        directory.user(user.id) matches Some(before) ==> before.github_login@ != login,
    ensures
        directory.with(user).user_of_login(login) == directory.user_of_login(login),
{
}

/// Taking in users that all have other identities leaves a user as it is; taking in users that all have
/// other logins, and replace no user of that login, leaves a login as it is.
pub proof fn law_users_not_taken_in_stay(
    directory: Directory,
    users: Seq<Arc<User>>,
    id: u64,
    login: Seq<char>,
)
    requires
        directory.sound(),
    ensures
        (forall|i: int| 0 <= i < users.len() ==> (#[trigger] users[i]).id != id)
            ==> directory.with_all(users).user(id) == directory.user(id),
        (forall|i: int|
            0 <= i < users.len() ==> (#[trigger] users[i]).github_login@ != login && !(
            directory.user(users[i].id) matches Some(before) && before.github_login@ == login))
            ==> directory.with_all(users).user_of_login(login) == directory.user_of_login(login),
    decreases users.len(),
{
    if users.len() > 0 {
        let before = users.drop_last();
        let last = users.last();
        assert(users[users.len() - 1] == last);
        assert forall|i: int| 0 <= i < before.len() implies before[i] == users[i] by {}
        law_users_not_taken_in_stay(directory, before, id, login);
        law_directory_stays_sound(directory, before);
        let known = directory.with_all(before);
        if forall|i: int| 0 <= i < users.len() ==> (#[trigger] users[i]).id != id {
            assert forall|i: int| 0 <= i < before.len() implies (#[trigger] before[i]).id != id by {
                assert(users[i].id != id);
            }
            law_other_users_stay(known, last, id);
        }
        if forall|i: int|
            0 <= i < users.len() ==> (#[trigger] users[i]).github_login@ != login && !(
            directory.user(users[i].id) matches Some(was) && was.github_login@ == login) {
            assert forall|i: int| 0 <= i < before.len() implies (
            #[trigger] before[i]).github_login@ != login && !(directory.user(
                before[i].id,
            ) matches Some(was) && was.github_login@ == login) by {
                assert(users[i].github_login@ != login);
            }
            lemma_no_login_appears(directory, before, last.id, login);
            law_other_logins_stay(known, last, login);
        }
    }
}

proof fn lemma_no_login_appears(
    directory: Directory,
    users: Seq<Arc<User>>,
    id: u64,
    login: Seq<char>,
)
    requires
        forall|i: int| 0 <= i < users.len() ==> (#[trigger] users[i]).github_login@ != login,
        !(directory.user(id) matches Some(was) && was.github_login@ == login),
    ensures
        !(directory.with_all(users).user(id) matches Some(now) && now.github_login@ == login),
    decreases users.len(),
{
    if users.len() > 0 {
        let before = users.drop_last();
        assert forall|i: int| 0 <= i < before.len() implies (#[trigger] before[i]).github_login@
            != login by {
            assert(users[i].github_login@ != login);
        }
        lemma_no_login_appears(directory, before, id, login);
        assert(users[users.len() - 1].github_login@ != login);
    }
}

/// Of users of one identity, the one taken in last is found.
pub proof fn law_last_user_of_an_identity_is_found(
    directory: Directory,
    users: Seq<Arc<User>>,
    k: int,
)
    requires
        0 <= k < users.len(),
        forall|i: int| k < i < users.len() ==> (#[trigger] users[i]).id != users[k].id,
    ensures
        directory.with_all(users).user(users[k].id) == Some(users[k]),
    decreases users.len(),
{
    if k < users.len() - 1 {
        let before = users.drop_last();
        assert(before[k] == users[k]);
        assert forall|i: int| k < i < before.len() implies (#[trigger] before[i]).id
            != before[k].id by {
            assert(users[i].id != users[k].id);
        }
        law_last_user_of_an_identity_is_found(directory, before, k);
        assert(users[users.len() - 1].id != users[k].id);
    }
}

/// Users are taken in one after another, in order.
pub proof fn law_users_are_taken_in_in_order(
    directory: Directory,
    users: Seq<Arc<User>>,
    user: Arc<User>,
)
    ensures
        directory.with_all(Seq::empty()) == directory,
        directory.with_all(users.push(user)) == directory.with_all(users).with(user),
{
    assert(users.push(user).drop_last() =~= users);
}

/// The users to load are, in order, those asked for who are not known.
pub proof fn law_unknown_users_are_loaded_in_order(directory: Directory, ids: Seq<u64>, id: u64)
    ensures
        unknown_users(directory, Seq::empty()) == Seq::<u64>::empty(),
        unknown_users(directory, ids.push(id)) == if directory.user(id) is Some {
            unknown_users(directory, ids)
        } else {
            unknown_users(directory, ids).push(id)
        },
{
    reveal(Seq::filter);
    assert(ids.push(id).drop_last() =~= ids);
}

/// A request counts one more, and an answer one less; a count that falls to nothing is dropped.
pub proof fn law_requests_are_counted_one_by_one(pending: Map<u64, usize>, user_id: u64)
    requires
        pending.contains_key(user_id) ==> 0 < pending[user_id] < usize::MAX,
    ensures
        request_begun(pending, user_id).contains_key(user_id),
        request_begun(pending, user_id)[user_id] == if pending.contains_key(user_id) {
            pending[user_id] + 1
        } else {
            1
        },
        request_ended(pending, user_id).contains_key(user_id) <==> pending.contains_key(user_id)
            && pending[user_id] > 1,
        request_ended(pending, user_id).contains_key(user_id) ==> request_ended(
            pending,
            user_id,
        )[user_id] == pending[user_id] - 1,
{
}

/// How far a request got: a contact's was accepted; otherwise one that was sent counts before one that
/// was received.
pub proof fn law_contact_request_status(store: UserStore, user: User)
    ensures
        ({
            let login = user.github_login@;
            let contacts = store.contacts@;
            let outgoing = store.outgoing_contact_requests@;
            let incoming = store.incoming_contact_requests@;
            let is_contact = exists|i: int|
                0 <= i < contacts.len() && (#[trigger] contacts[i]).user.github_login@ == login;
            let is_asked = exists|i: int|
                0 <= i < outgoing.len() && (#[trigger] outgoing[i]).github_login@ == login;
            let has_asked = exists|i: int|
                0 <= i < incoming.len() && (#[trigger] incoming[i]).github_login@ == login;
            &&& is_contact == has_login(contacts, login)
            &&& is_contact ==> store.request_status(user) == ContactRequestStatus::RequestAccepted
            &&& !is_contact && is_asked ==> store.request_status(user)
                == ContactRequestStatus::RequestSent
            &&& !is_contact && !is_asked && has_asked ==> store.request_status(user)
                == ContactRequestStatus::RequestReceived
            &&& !is_contact && !is_asked && !has_asked ==> store.request_status(user)
                == ContactRequestStatus::NotRequested
        }),
{
    let login = user.github_login@;
    let contacts = store.contacts@;
    let outgoing = store.outgoing_contact_requests@;
    let incoming = store.incoming_contact_requests@;
    assert(has_login(contacts, login) == (exists|i: int|
        0 <= i < contacts.len() && (#[trigger] contacts[i]).user.github_login@ == login)) by {
        if has_login(contacts, login) {
            let i = choose|i: int| 0 <= i < contacts.len() && #[trigger] contacts[i].login() == login;
            assert(contacts[i].user.github_login@ == login);
        }
        if exists|i: int|
            0 <= i < contacts.len() && (#[trigger] contacts[i]).user.github_login@ == login {
            let i = choose|i: int|
                0 <= i < contacts.len() && (#[trigger] contacts[i]).user.github_login@ == login;
            assert(contacts[i].login() == login);
        }
    }
    lemma_user_login(outgoing, login);
    lemma_user_login(incoming, login);
}

proof fn lemma_user_login(users: Seq<Arc<User>>, login: Seq<char>)
    ensures
        has_login(users, login) == (exists|i: int|
            0 <= i < users.len() && (#[trigger] users[i]).github_login@ == login),
{
    if has_login(users, login) {
        let i = choose|i: int| 0 <= i < users.len() && #[trigger] users[i].login() == login;
        assert(users[i].github_login@ == login);
    }
    if exists|i: int| 0 <= i < users.len() && (#[trigger] users[i]).github_login@ == login {
        let i = choose|i: int| 0 <= i < users.len() && (#[trigger] users[i]).github_login@ == login;
        assert(users[i].login() == login);
    }
}

} // verus!
