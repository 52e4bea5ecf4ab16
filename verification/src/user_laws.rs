//! What holds of users, contacts, and the store that knows them.

use std::cmp::Ordering;
use std::collections::HashMap;
use std::sync::Arc;
use vstd::prelude::*;

use crate::decimal::{law_written_number_reads_back, value_of};
use crate::text_order::{before, law_texts_are_ordered};
use crate::user::{
    ChannelId, Collaborator, CollaboratorMessage, Contact, ContactRequestStatus, Event,
    InvalidPeerId, InviteInfo, ParticipantIndex, ProjectId, User, UserMessage,
};
use crate::user_store::{
    law_contact_request_status, law_last_user_of_an_identity_is_found, law_users_not_taken_in_stay,
    unknown_users, ContactMessage, ContactRequestResponse, Directory, Plan, Timestamp, UsageLimit,
    UserLookup, UserStore, UserStoreError,
};

verus! {

/// A login leads to who took it last, whatever else is known. Every other login leads where it led before,
/// but for the one that the same user had.
pub proof fn law_logins_lead_where_they_led(
    directory: Directory,
    user: Arc<User>,
    login: Seq<char>,
    id: u64,
)
    ensures
        ({
            let next = directory.with(user);
            let given_up = directory.users.contains_key(user.id)
                && directory.users[user.id].github_login@ == login;
            &&& next.logins.contains_key(user.github_login@)
            &&& next.logins[user.github_login@] == user.id
            &&& next.users.contains_key(user.id)
            &&& next.users[user.id] == user
            &&& login != user.github_login@ && !given_up ==> next.logins.contains_key(login)
                == directory.logins.contains_key(login) && next.logins[login]
                == directory.logins[login]
            &&& login != user.github_login@ && given_up ==> !next.logins.contains_key(login)
            &&& id != user.id ==> next.users.contains_key(id) == directory.users.contains_key(id)
                && next.users[id] == directory.users[id]
        }),
{
}

/// A directory is what the store holds by identity and by login.
pub proof fn law_directory_of_a_store(store: UserStore, id: u64, login: Seq<char>)
    ensures
        store.directory().user(id) is Some <==> store.users@.contains_key(id),
        store.users@.contains_key(id) ==> store.directory().user(id)->0 == store.users@[id],
        store.directory().user_of_login(login) is Some <==> store.by_github_login@.contains_key(
            login,
        ) && store.users@.contains_key(store.by_github_login@[login]),
        store.directory().user_of_login(login) is Some ==> store.directory().user_of_login(login)->0
            == store.users@[store.by_github_login@[login]],
{
}

/// Each user that is taken in is the one of its message, and is found by identity unless a later one has
/// the same. Users and logins that are not concerned stay as they are, and so does all the rest.
pub proof fn law_inserted_users(
    store: &mut UserStore,
    messages: Vec<UserMessage>,
    inserted: Vec<Arc<User>>,
    k: int,
    id: u64,
    login: Seq<char>,
)
    requires
        call_ensures(UserStore::insert, (store, messages), inserted),
        old(store).well_formed(),
    ensures
        inserted@.len() == messages@.len(),
        0 <= k < messages@.len() ==> {
            &&& inserted@[k].id == messages@[k].id
            &&& inserted@[k].github_login == messages@[k].github_login
            &&& inserted@[k].avatar_uri == messages@[k].avatar_url
            &&& inserted@[k].name == messages@[k].name
            &&& inserted@[k].email == messages@[k].email
            &&& (forall|i: int|
                k < i < messages@.len() ==> (#[trigger] messages@[i]).id != messages@[k].id)
                ==> final(store).users@.contains_key(messages@[k].id)
                && final(store).users@[messages@[k].id] == inserted@[k]
        },
        (forall|i: int| 0 <= i < messages@.len() ==> (#[trigger] messages@[i]).id != id)
            ==> final(store).directory().user(id) == old(store).directory().user(id),
        (forall|i: int|
            0 <= i < messages@.len() ==> (#[trigger] messages@[i]).github_login@ != login && !(
            old(store).directory().user(messages@[i].id) matches Some(was) && was.github_login@
                == login)) ==> final(store).directory().user_of_login(login) == old(
            store,
        ).directory().user_of_login(login),
        *final(store) == (UserStore {
            users: final(store).users,
            by_github_login: final(store).by_github_login,
            ..*old(store)
        }),
{
    let directory = old(store).directory();
    assert forall|i: int| 0 <= i < messages@.len() implies (#[trigger] inserted@[i]).id
        == messages@[i].id && inserted@[i].github_login == messages@[i].github_login by {
        assert(*inserted@[i] == User::of_message(messages@[i]));
    }
    law_users_not_taken_in_stay(directory, inserted@, id, login);
    if 0 <= k < messages@.len() {
        assert(*inserted@[k] == User::of_message(messages@[k]));
        if forall|i: int|
            k < i < messages@.len() ==> (#[trigger] messages@[i]).id != messages@[k].id {
            assert forall|i: int| k < i < inserted@.len() implies (#[trigger] inserted@[i]).id
                != inserted@[k].id by {
                assert(messages@[i].id != messages@[k].id);
            }
            law_last_user_of_an_identity_is_found(directory, inserted@, k);
        }
    }
    if forall|i: int| 0 <= i < messages@.len() ==> (#[trigger] messages@[i]).id != id {
        assert forall|i: int| 0 <= i < inserted@.len() implies (#[trigger] inserted@[i]).id
            != id by {
            assert(messages@[i].id != id);
        }
    }
    if forall|i: int|
        0 <= i < messages@.len() ==> (#[trigger] messages@[i]).github_login@ != login && !(
        directory.user(messages@[i].id) matches Some(was) && was.github_login@ == login) {
        assert forall|i: int| 0 <= i < inserted@.len() implies (
        #[trigger] inserted@[i]).github_login@ != login && !(directory.user(
            inserted@[i].id,
        ) matches Some(was) && was.github_login@ == login) by {
            assert(messages@[i].github_login@ != login);
        }
    }
}

/// Users that a server sends are taken in like any others; without an answer nothing happens.
pub proof fn law_loaded_messages(
    store: &mut UserStore,
    response: Option<Vec<UserMessage>>,
    loaded: Vec<Arc<User>>,
    k: int,
    id: u64,
    login: Seq<char>,
)
    requires
        call_ensures(UserStore::load_users, (store, response), loaded),
        old(store).well_formed(),
    ensures
        response is None ==> loaded@.len() == 0 && *final(store) == *old(store),
        *final(store) == (UserStore {
            users: final(store).users,
            by_github_login: final(store).by_github_login,
            ..*old(store)
        }),
        response matches Some(messages) ==> {
            &&& loaded@.len() == messages@.len()
            &&& 0 <= k < messages@.len() ==> {
                &&& loaded@[k].id == messages@[k].id
                &&& loaded@[k].github_login == messages@[k].github_login
                &&& (forall|i: int|
                    k < i < messages@.len() ==> (#[trigger] loaded@[i]).id != loaded@[k].id)
                    ==> final(store).users@.contains_key(messages@[k].id)
                    && final(store).users@[messages@[k].id] == loaded@[k]
            }
            &&& (forall|i: int| 0 <= i < loaded@.len() ==> (#[trigger] loaded@[i]).id != id)
                ==> final(store).directory().user(id) == old(store).directory().user(id)
            &&& (forall|i: int|
                0 <= i < loaded@.len() ==> (#[trigger] loaded@[i]).github_login@ != login && !(old(
                    store,
                ).directory().user(loaded@[i].id) matches Some(was) && was.github_login@ == login))
                ==> final(store).directory().user_of_login(login) == old(
                store,
            ).directory().user_of_login(login)
        },
{
    if let Some(messages) = response {
        let directory = old(store).directory();
        law_users_not_taken_in_stay(directory, loaded@, id, login);
        if 0 <= k < messages@.len() {
            assert(*loaded@[k] == User::of_message(messages@[k]));
            if forall|i: int|
                k < i < messages@.len() ==> (#[trigger] loaded@[i]).id != loaded@[k].id {
                law_last_user_of_an_identity_is_found(directory, loaded@, k);
            }
        }
    }
}

/// Users are found by identity, and by login, exactly if they are known by it.
pub proof fn law_cached_users(
    store: &UserStore,
    id: u64,
    user: Option<Arc<User>>,
    login: &str,
    of_login: Option<Arc<User>>,
)
    requires
        call_ensures(UserStore::get_cached_user, (store, id), user),
        call_ensures(UserStore::cached_user_by_github_login, (store, login), of_login),
        store.well_formed(),
    ensures
        user is Some <==> store.users@.contains_key(id),
        user is Some ==> user->0 == store.users@[id] && user->0.id == id,
        of_login is Some <==> store.by_github_login@.contains_key(login@),
        of_login is Some ==> of_login->0.github_login@ == login@ && store.users@[of_login->0.id]
            == of_login->0,
{
    if store.by_github_login@.contains_key(login@) {
        assert(store.directory().logins.contains_key(login@));
        let found = store.by_github_login@[login@];
        assert(store.directory().users.contains_key(found));
    }
    if store.users@.contains_key(id) {
        assert(store.directory().users.contains_key(id));
    }
}

/// A known user is told at once; one that is not known is to be loaded, and nobody else is.
pub proof fn law_looked_up_user(
    store: &UserStore,
    id: u64,
    lookup: UserLookup,
    optimistic: UserLookup,
    result: Result<Arc<User>, UserStoreError>,
)
    requires
        call_ensures(UserStore::get_user, (store, id), lookup),
        call_ensures(UserStore::get_user_optimistic, (store, id), optimistic),
        call_ensures(UserStore::loaded_user, (store, id), result),
    ensures
        lookup is Cached <==> store.users@.contains_key(id),
        lookup is Cached ==> lookup->Cached_0 == store.users@[id] && optimistic == lookup && result
            == Ok::<Arc<User>, UserStoreError>(store.users@[id]),
        lookup is Load ==> optimistic is Load && lookup->Load_0@.len() == 1 && lookup->Load_0@[0]
            == id && optimistic->Load_0@ == lookup->Load_0@ && result == Err::<
            Arc<User>,
            UserStoreError,
        >(UserStoreError::NoUsers),
{
}

/// The users to load are exactly those asked for who are not known, in the order asked for.
pub proof fn law_users_to_load(store: &UserStore, ids: &Vec<u64>, to_fetch: Vec<u64>, id: u64)
    requires
        call_ensures(UserStore::get_users, (store, ids), to_fetch),
    ensures
        to_fetch@.contains(id) <==> ids@.contains(id) && !store.users@.contains_key(id),
        to_fetch@.len() <= ids@.len(),
        to_fetch@ == unknown_users(store.directory(), ids@),
{
    lemma_unknown(store.directory(), ids@, id);
}

proof fn lemma_unknown(directory: Directory, ids: Seq<u64>, id: u64)
    ensures
        unknown_users(directory, ids).contains(id) <==> ids.contains(id)
            && !directory.users.contains_key(id),
        unknown_users(directory, ids).len() <= ids.len(),
    decreases ids.len(),
{
    reveal(Seq::filter);
    if ids.len() > 0 {
        let front = ids.drop_last();
        let last = ids.last();
        lemma_unknown(directory, front, id);
        assert(ids[ids.len() - 1] == last);
        assert(ids.contains(id) <==> front.contains(id) || last == id) by {
            if ids.contains(id) {
                let i = choose|i: int| 0 <= i < ids.len() && ids[i] == id;
                if i < front.len() {
                    assert(front[i] == id);
                }
            }
            if front.contains(id) {
                let i = choose|i: int| 0 <= i < front.len() && front[i] == id;
                assert(ids[i] == id);
            }
        }
        let kept = unknown_users(directory, front);
        let all = unknown_users(directory, ids);
        if !directory.users.contains_key(last) {
            assert(all =~= kept.push(last));
            assert(all[all.len() - 1] == last);
            if kept.contains(id) {
                let i = choose|i: int| 0 <= i < kept.len() && kept[i] == id;
                assert(all[i] == id);
            }
            if all.contains(id) {
                let i = choose|i: int| 0 <= i < all.len() && all[i] == id;
                if i < kept.len() {
                    assert(kept[i] == id);
                }
            }
        }
    }
}

/// Users asked for are told, one for one, exactly if all of them are known; otherwise the first who is not
/// is named.
pub proof fn law_told_users(
    store: &UserStore,
    ids: &Vec<u64>,
    result: Result<Vec<Arc<User>>, UserStoreError>,
    k: int,
)
    requires
        call_ensures(UserStore::loaded_users, (store, ids), result),
    ensures
        result is Ok <==> forall|i: int|
            0 <= i < ids@.len() ==> store.users@.contains_key(#[trigger] ids@[i]),
        result matches Ok(users) ==> users@.len() == ids@.len() && (0 <= k < ids@.len()
            ==> users@[k] == store.users@[ids@[k]]),
        0 <= k < ids@.len() && !store.users@.contains_key(ids@[k]) && (forall|j: int|
            0 <= j < k ==> store.users@.contains_key(#[trigger] ids@[j])) ==> result == Err::<
            Vec<Arc<User>>,
            UserStoreError,
        >(UserStoreError::UserNotFound(ids@[k])),
{
    match result {
        Ok(users) => {
            assert forall|i: int| 0 <= i < ids@.len() implies store.users@.contains_key(
                #[trigger] ids@[i],
            ) by {
                assert(store.directory().user(ids@[i]) == Some(users@[i]));
            }
            if 0 <= k < ids@.len() {
                assert(store.directory().user(ids@[k]) == Some(users@[k]));
            }
        },
        Err(error) => {
            let i = choose|i: int|
                {
                    &&& 0 <= i < ids@.len()
                    &&& error == UserStoreError::UserNotFound(#[trigger] ids@[i])
                    &&& store.directory().user(ids@[i]) is None
                    &&& forall|j: int|
                        0 <= j < i ==> store.directory().user(#[trigger] ids@[j]) is Some
                };
            assert(!store.users@.contains_key(ids@[i]));
            if 0 <= k < ids@.len() && !store.users@.contains_key(ids@[k]) && (forall|j: int|
                0 <= j < k ==> store.users@.contains_key(#[trigger] ids@[j])) {
                if k < i {
                    assert(store.directory().user(ids@[k]) is Some);
                }
                if i < k {
                    assert(store.users@.contains_key(ids@[i]));
                }
            }
        },
    }
}

/// A new store knows nobody and has nothing pending. A cleared one knows nobody, and is otherwise as it was.
pub proof fn law_empty_store(fresh: UserStore, store: &mut UserStore, id: u64, login: Seq<char>)
    requires
        call_ensures(UserStore::new, (), fresh),
        call_ensures(UserStore::clear_cache, (store,), ()),
    ensures
        fresh.directory().user(id) is None && fresh.directory().user_of_login(login) is None,
        !fresh.pending_contact_requests@.contains_key(id),
        !fresh.participant_indices@.contains_key(id),
        fresh.contacts@.len() == 0,
        fresh.incoming_contact_requests@.len() == 0,
        fresh.outgoing_contact_requests@.len() == 0,
        fresh.current_user is None && fresh.current_plan is None && fresh.invite_info is None,
        fresh.well_formed(),
        final(store).directory().user(id) is None,
        final(store).directory().user_of_login(login) is None,
        !final(store).users@.contains_key(id) && !final(store).by_github_login@.contains_key(login),
        !fresh.users@.contains_key(id) && !fresh.by_github_login@.contains_key(login),
        *final(store) == (UserStore {
            users: final(store).users,
            by_github_login: final(store).by_github_login,
            ..*old(store)
        }),
{
}

/// Whether two stores differ in nothing but pending requests about one user.
pub open spec fn only_requests_about(a: UserStore, b: UserStore, user_id: u64) -> bool {
    &&& a == (UserStore { pending_contact_requests: a.pending_contact_requests, ..b })
    &&& forall|other: u64|
        other != user_id ==> #[trigger] a.pending_contact_requests@.contains_key(other)
            == b.pending_contact_requests@.contains_key(other) && a.pending_contact_requests@[other]
            == b.pending_contact_requests@[other]
}

/// The number of pending requests about a user.
pub open spec fn requests_about(store: UserStore, user_id: u64) -> int {
    if store.pending_contact_requests@.contains_key(user_id) {
        store.pending_contact_requests@[user_id] as int
    } else {
        0
    }
}

/// A request counts as pending even where there is no client to send it with, and then it fails. Requests
/// about others are not concerned.
pub proof fn law_begun_request(
    store: &mut UserStore,
    user_id: u64,
    client_available: bool,
    result: Result<(), UserStoreError>,
)
    requires
        call_ensures(UserStore::perform_contact_request, (store, user_id, client_available), result),
        requests_about(*old(store), user_id) < usize::MAX,
    ensures
        requests_about(*final(store), user_id) == requests_about(*old(store), user_id) + 1,
        only_requests_about(*final(store), *old(store), user_id),
        result is Ok <==> client_available,
        result is Err ==> result->Err_0 == UserStoreError::ClientGone,
{
}

/// An answer ends one request, and takes away what is left of the count where it was the last.
pub proof fn law_ended_request(store: &mut UserStore, user_id: u64)
    requires
        call_ensures(UserStore::finish_contact_request, (store, user_id), ()),
        old(store).well_formed(),
    ensures
        requests_about(*old(store), user_id) > 0 ==> requests_about(*final(store), user_id)
            == requests_about(*old(store), user_id) - 1,
        requests_about(*old(store), user_id) == 0 ==> final(store).pending_contact_requests@
            == old(store).pending_contact_requests@,
        final(store).pending_contact_requests@.contains_key(user_id) <==> requests_about(
            *old(store),
            user_id,
        ) > 1,
        only_requests_about(*final(store), *old(store), user_id),
{
}

/// To ask, to accept and to decline all count as a request, and each sends its own message.
pub proof fn law_sent_requests(
    asking: &mut UserStore,
    responding: &mut UserStore,
    user_id: u64,
    accept: bool,
    client_available: bool,
    asked: Result<ContactMessage, UserStoreError>,
    responded: Result<ContactMessage, UserStoreError>,
)
    requires
        call_ensures(UserStore::request_contact, (asking, user_id, client_available), asked),
        requests_about(*old(asking), user_id) < usize::MAX,
        call_ensures(
            UserStore::respond_to_contact_request,
            (responding, user_id, accept, client_available),
            responded,
        ),
        requests_about(*old(responding), user_id) < usize::MAX,
    ensures
        requests_about(*final(asking), user_id) == requests_about(*old(asking), user_id) + 1,
        requests_about(*final(responding), user_id) == requests_about(*old(responding), user_id)
            + 1,
        only_requests_about(*final(asking), *old(asking), user_id),
        only_requests_about(*final(responding), *old(responding), user_id),
        asked is Ok <==> client_available,
        responded is Ok <==> client_available,
        asked matches Ok(message) ==> message is RequestContact && message->responder_id
            == user_id,
        responded matches Ok(message) ==> message is RespondToContactRequest
            && message->requester_id == user_id && message->response == if accept {
            ContactRequestResponse::Accept
        } else {
            ContactRequestResponse::Decline
        },
        asked matches Err(error) ==> error == UserStoreError::ClientGone,
        responded matches Err(error) ==> error == UserStoreError::ClientGone,
{
}

/// A request that is dismissed is answered, but is not pending. To remove a contact changes nothing here.
pub proof fn law_dismissed_request(
    store: &UserStore,
    user_id: u64,
    client_available: bool,
    result: Result<ContactMessage, UserStoreError>,
    removing: &mut UserStore,
)
    requires
        call_ensures(UserStore::dismiss_contact_request, (store, user_id, client_available), result),
        call_ensures(UserStore::remove_contact, (removing, user_id), ()),
    ensures
        result is Ok <==> client_available,
        result matches Ok(message) ==> message is RespondToContactRequest && message->requester_id
            == user_id && message->response == ContactRequestResponse::Dismiss,
        result matches Err(error) ==> error == UserStoreError::ClientGone,
        *final(removing) == *old(removing),
{
}

/// How far requests to become contacts got is told as it is.
pub proof fn law_told_contacts(
    store: &UserStore,
    user: &User,
    shared: &Arc<User>,
    pending: bool,
    status: ContactRequestStatus,
    is_contact: bool,
    has_incoming: bool,
)
    requires
        call_ensures(UserStore::is_contact_request_pending, (store, user), pending),
        call_ensures(UserStore::contact_request_status, (store, user), status),
        call_ensures(UserStore::has_contact, (store, shared), is_contact),
        **shared == *user,
        call_ensures(UserStore::has_incoming_contact_request, (store, user.id), has_incoming),
    ensures
        pending <==> store.pending_contact_requests@.contains_key(user.id),
        ({
            let contacts = store.contacts@;
            let outgoing = store.outgoing_contact_requests@;
            let incoming = store.incoming_contact_requests@;
            let login = user.github_login@;
            let asked = exists|i: int|
                0 <= i < outgoing.len() && (#[trigger] outgoing[i]).github_login@ == login;
            let has_asked = exists|i: int|
                0 <= i < incoming.len() && (#[trigger] incoming[i]).github_login@ == login;
            &&& is_contact <==> exists|i: int|
                0 <= i < contacts.len() && (#[trigger] contacts[i]).user.github_login@ == login
            &&& status == ContactRequestStatus::RequestAccepted <==> is_contact
            &&& status == ContactRequestStatus::RequestSent <==> !is_contact && asked
            &&& status == ContactRequestStatus::RequestReceived <==> !is_contact && !asked
                && has_asked
            &&& has_incoming <==> exists|i: int|
                0 <= i < incoming.len() && (#[trigger] incoming[i]).id == user.id
        }),
{
    law_contact_request_status(*store, *user);
    let incoming = store.incoming_contact_requests@;
    if exists|i: int| 0 <= i < incoming.len() && (#[trigger] incoming[i]).id == user.id {
        let i = choose|i: int| 0 <= i < incoming.len() && (#[trigger] incoming[i]).id == user.id;
        assert(store.incoming_contact_requests@[i].id == user.id);
    }
    if has_incoming {
        let i = choose|i: int|
            0 <= i < store.incoming_contact_requests@.len()
                && #[trigger] store.incoming_contact_requests@[i].id == user.id;
        assert(incoming[i].id == user.id);
    }
}

/// Places in a call are replaced as a whole. An event tells of it exactly if some place changed.
pub proof fn law_places_in_a_call(
    store: &mut UserStore,
    indices: HashMap<u64, ParticipantIndex>,
    event: Option<Event>,
    id: u64,
)
    requires
        call_ensures(UserStore::set_participant_indices, (store, indices), event),
    ensures
        final(store).participant_indices@ == indices@,
        event is None ==> old(store).participant_indices@.contains_key(id) == indices@.contains_key(
            id,
        ) && (indices@.contains_key(id) ==> old(store).participant_indices@[id] == indices@[id]),
        event is Some ==> old(store).participant_indices@ != indices@ && event->0
            is ParticipantIndicesChanged,
        *final(store) == (UserStore {
            participant_indices: final(store).participant_indices,
            ..*old(store)
        }),
{
}

/// The names told are the logins of exactly those asked for who are known; the others are to be loaded.
pub proof fn law_told_names(
    store: &UserStore,
    ids: &Vec<u64>,
    names: (HashMap<u64, String>, Vec<u64>),
    id: u64,
)
    requires
        call_ensures(UserStore::participant_names, (store, ids), names),
    ensures
        names.0@.contains_key(id) <==> ids@.contains(id) && store.users@.contains_key(id),
        names.0@.contains_key(id) ==> names.0@[id]@ == store.users@[id].github_login@,
        names.1@.contains(id) <==> ids@.contains(id) && !store.users@.contains_key(id),
{
    lemma_unknown(store.directory(), ids@, id);
}

/// What the store tells of contacts and invitations is what it holds.
pub proof fn law_told_lists(
    store: &UserStore,
    contacts: &[Arc<Contact>],
    incoming: &[Arc<User>],
    outgoing: &[Arc<User>],
    info: Option<&InviteInfo>,
    indices: &HashMap<u64, ParticipantIndex>,
)
    requires
        call_ensures(UserStore::contacts, (store,), contacts),
        call_ensures(UserStore::incoming_contact_requests, (store,), incoming),
        call_ensures(UserStore::outgoing_contact_requests, (store,), outgoing),
        call_ensures(UserStore::invite_info, (store,), info),
        call_ensures(UserStore::participant_indices, (store,), indices),
    ensures
        contacts@ == store.contacts@,
        incoming@ == store.incoming_contact_requests@,
        outgoing@ == store.outgoing_contact_requests@,
        (info is Some) == (store.invite_info is Some),
        info is Some ==> *info->0 == store.invite_info->0,
        *indices == store.participant_indices,
{
}

/// What the store tells of the user who is signed in is what it holds; what is not known counts as not so.
pub proof fn law_told_account(
    store: &UserStore,
    user: Option<Arc<User>>,
    plan: Option<Plan>,
    period: Option<(Timestamp, Timestamp)>,
    trial: Option<Timestamp>,
    billing: Option<bool>,
    too_young: bool,
    overdue: bool,
    accepted: Option<bool>,
)
    requires
        call_ensures(UserStore::current_user, (store,), user),
        call_ensures(UserStore::current_plan, (store,), plan),
        call_ensures(UserStore::subscription_period, (store,), period),
        call_ensures(UserStore::trial_started_at, (store,), trial),
        call_ensures(UserStore::usage_based_billing_enabled, (store,), billing),
        call_ensures(UserStore::account_too_young, (store,), too_young),
        call_ensures(UserStore::has_overdue_invoices, (store,), overdue),
        call_ensures(UserStore::current_user_has_accepted_terms, (store,), accepted),
    ensures
        *store == (UserStore {
            current_user: user,
            current_plan: plan,
            subscription_period: period,
            trial_started_at: trial,
            is_usage_based_billing_enabled: billing,
            ..*store
        }),
        too_young <==> store.account_too_young is Some && store.account_too_young->0,
        overdue <==> store.has_overdue_invoices is Some && store.has_overdue_invoices->0,
        accepted == Some(true),
{
}

/// What the store tells of usage is what it holds.
pub proof fn law_told_usage(
    store: &UserStore,
    requests: Option<u32>,
    request_limit: Option<UsageLimit>,
    predictions: Option<u32>,
    prediction_limit: Option<UsageLimit>,
)
    requires
        call_ensures(UserStore::model_request_usage_amount, (store,), requests),
        call_ensures(UserStore::model_request_usage_limit, (store,), request_limit),
        call_ensures(UserStore::edit_predictions_usage_amount, (store,), predictions),
        call_ensures(UserStore::edit_predictions_usage_limit, (store,), prediction_limit),
    ensures
        *store == (UserStore {
            model_request_usage_amount: requests,
            model_request_usage_limit: request_limit,
            edit_predictions_usage_amount: predictions,
            edit_predictions_usage_limit: prediction_limit,
            ..*store
        }),
{
}

/// A user takes every part from its message.
pub proof fn law_user_of_a_message(message: UserMessage, user: Arc<User>)
    requires
        call_ensures(User::new, (message,), user),
    ensures
        user.id == message.id,
        user.github_login == message.github_login,
        user.avatar_uri == message.avatar_url,
        user.name == message.name,
        user.email == message.email,
{
}

/// Users are ordered by login alone, and compare as equal only where the logins are alike.
pub proof fn law_order_of_users(a: &User, b: &User, forth: Ordering, back: Ordering)
    requires
        call_ensures(User::cmp, (a, b), forth),
        call_ensures(User::cmp, (b, a), back),
    ensures
        forth is Less <==> before(a.github_login@, b.github_login@),
        forth is Greater <==> before(b.github_login@, a.github_login@),
        forth is Equal <==> a.github_login@ == b.github_login@,
        forth is Less <==> back is Greater,
        forth is Equal <==> back is Equal,
{
    law_texts_are_ordered(a.github_login@, b.github_login@);
    law_texts_are_ordered(b.github_login@, a.github_login@);
}

/// A collaborator takes every part from its message, of the replica the low sixteen bits. A message is
/// refused exactly if it names no peer.
pub proof fn law_collaborator_of_a_message(
    message: CollaboratorMessage,
    result: Result<Collaborator, InvalidPeerId>,
)
    requires
        call_ensures(Collaborator::from_proto, (message,), result),
    ensures
        result is Ok <==> message.peer_id is Some,
        result matches Ok(collaborator) ==> {
            &&& Some(collaborator.peer_id) == message.peer_id
            &&& collaborator.user_id == message.user_id
            &&& collaborator.is_host == message.is_host
            &&& (message.replica_id - collaborator.replica_id) % 0x1_0000 == 0
        },
{
}

/// A channel is written by its number, and a project is known by its own.
pub proof fn law_numbers(channel: &ChannelId, text: String, project: &ProjectId, id: u64)
    requires
        call_ensures(ChannelId::to_string, (channel,), text),
        call_ensures(ProjectId::to_proto, (project,), id),
    ensures
        value_of(text@) == channel.0,
        id == project.0,
{
    law_written_number_reads_back(channel.0 as nat);
}

/// Users compare by login, whichever way they are compared.
pub proof fn law_compared_users(a: &User, b: &User, order: Option<Ordering>, forth: Ordering)
    requires
        call_ensures(User::partial_cmp, (a, b), order),
        call_ensures(User::cmp, (a, b), forth),
    ensures
        order == Some(forth),
{
}

} // verus!
