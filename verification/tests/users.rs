use editor_core::user::{
    ChannelId, Collaborator, CollaboratorMessage, Contact, ContactRequestStatus, Event, InviteInfo,
    InvalidPeerId, ParticipantIndex, PeerId, ProjectId, User, UserMessage,
};
use editor_core::user_store::{
    ContactMessage, ContactRequestResponse, Plan, Timestamp, UsageLimit, UserLookup, UserStore,
    UserStoreError,
};
use std::collections::HashMap;
use std::sync::Arc;

fn message(id: u64, login: &str) -> UserMessage {
    UserMessage {
        id,
        github_login: login.to_string(),
        avatar_url: format!("https://zed.dev/{id}.png"),
        name: Some(login.to_uppercase()),
        email: None,
    }
}

fn user(id: u64, login: &str) -> Arc<User> {
    User::new(message(id, login))
}

fn contact(id: u64, login: &str) -> Arc<Contact> {
    Arc::new(Contact { user: user(id, login), online: true, busy: false })
}

#[test]
fn identities() {
    assert_eq!(ProjectId(7).to_proto(), 7);
    assert_eq!(ChannelId(120).to_string(), "120");
}

#[test]
fn users_of_messages() {
    let user = user(4, "ada");
    assert_eq!(user.id, 4);
    assert_eq!(user.github_login, "ada");
    assert_eq!(user.avatar_uri, "https://zed.dev/4.png");
    assert_eq!(user.name.as_deref(), Some("ADA"));
    assert_eq!(user.email, None);
    let nobody = User::default();
    assert_eq!(nobody.id, 0);
    assert_eq!(nobody.github_login, "");
}

#[test]
fn users_are_compared_by_identity_and_login() {
    assert!(*user(1, "a") == *user(1, "a"));
    assert!(*user(1, "a") != *user(2, "a"));
    assert!(*user(1, "a") != *user(1, "b"));
    assert!(*user(2, "a") < *user(1, "b"));
    assert!(*user(1, "b") > *user(2, "a"));
    assert_eq!(user(1, "a").cmp(&user(2, "a")), std::cmp::Ordering::Equal);
    assert_eq!(user(1, "a").partial_cmp(&user(2, "aa")), Some(std::cmp::Ordering::Less));
}

#[test]
fn contacts_are_compared_in_every_part() {
    assert!(*contact(1, "a") == *contact(1, "a"));
    assert!(*contact(1, "a") != *contact(2, "a"));
    let busy = Contact { user: user(1, "a"), online: true, busy: true };
    assert!(*contact(1, "a") != busy);
}

#[test]
fn collaborators_need_a_peer() {
    let peer_id = PeerId { owner_id: 1, id: 2 };
    let message = CollaboratorMessage {
        peer_id: Some(peer_id),
        replica_id: 0x1_0005,
        user_id: 9,
        is_host: true,
    };
    assert_eq!(
        Collaborator::from_proto(message),
        Ok(Collaborator { peer_id, replica_id: 5, user_id: 9, is_host: true })
    );
    let message = CollaboratorMessage { peer_id: None, ..message };
    assert_eq!(Collaborator::from_proto(message), Err(InvalidPeerId));
}

#[test]
fn a_new_store_knows_nothing() {
    let store = UserStore::new();
    assert!(store.get_cached_user(1).is_none());
    assert!(store.contacts().is_empty());
    assert!(store.incoming_contact_requests().is_empty());
    assert!(store.outgoing_contact_requests().is_empty());
    assert!(store.participant_indices().is_empty());
    assert!(store.invite_info().is_none());
    assert!(store.current_user().is_none());
    assert_eq!(store.current_plan(), None);
    assert_eq!(store.subscription_period(), None);
    assert_eq!(store.trial_started_at(), None);
    assert_eq!(store.usage_based_billing_enabled(), None);
    assert_eq!(store.model_request_usage_amount(), None);
    assert_eq!(store.model_request_usage_limit(), None);
    assert_eq!(store.edit_predictions_usage_amount(), None);
    assert_eq!(store.edit_predictions_usage_limit(), None);
    assert!(!store.account_too_young());
    assert!(!store.has_overdue_invoices());
    assert_eq!(store.current_user_has_accepted_terms(), Some(true));
}

#[test]
fn what_is_known_of_the_account() {
    let mut store = UserStore::new();
    let time = Timestamp { seconds: 5, nanos: 1 };
    store.account_too_young = Some(true);
    store.has_overdue_invoices = Some(true);
    store.current_plan = Some(Plan(2));
    store.subscription_period = Some((time, time));
    store.trial_started_at = Some(time);
    store.model_request_usage_amount = Some(3);
    store.model_request_usage_limit = Some(UsageLimit::Limited(4));
    store.edit_predictions_usage_amount = Some(5);
    store.edit_predictions_usage_limit = Some(UsageLimit::Unlimited);
    store.is_usage_based_billing_enabled = Some(false);
    store.current_user = Some(user(1, "a"));
    store.invite_info = Some(InviteInfo { count: 2, url: "https://zed.dev/i".into() });
    assert!(store.account_too_young());
    assert!(store.has_overdue_invoices());
    assert_eq!(store.current_plan(), Some(Plan(2)));
    assert_eq!(store.subscription_period(), Some((time, time)));
    assert_eq!(store.trial_started_at(), Some(time));
    assert_eq!(store.model_request_usage_amount(), Some(3));
    assert_eq!(store.model_request_usage_limit(), Some(UsageLimit::Limited(4)));
    assert_eq!(store.edit_predictions_usage_amount(), Some(5));
    assert_eq!(store.edit_predictions_usage_limit(), Some(UsageLimit::Unlimited));
    assert_eq!(store.usage_based_billing_enabled(), Some(false));
    assert_eq!(store.current_user().unwrap().id, 1);
    let info = store.invite_info().unwrap().clone();
    assert_eq!((info.count, &*info.url), (2, "https://zed.dev/i"));
}

#[test]
fn contacts_are_found_by_login() {
    let mut store = UserStore::new();
    store.contacts = ["ada", "bob", "eve", "mia", "zoe"]
        .iter()
        .zip(1..)
        .map(|(login, id)| contact(id, login))
        .collect();
    store.outgoing_contact_requests = vec![user(10, "eve"), user(11, "lea"), user(12, "tom")];
    store.incoming_contact_requests = vec![user(13, "lea"), user(14, "max")];
    for login in ["ada", "bob", "eve", "mia", "zoe"] {
        assert!(store.has_contact(&user(99, login)));
        assert_eq!(store.contact_request_status(&user(99, login)), ContactRequestStatus::RequestAccepted);
    }
    assert!(!store.has_contact(&user(1, "ad")));
    assert_eq!(store.contact_request_status(&user(1, "lea")), ContactRequestStatus::RequestSent);
    assert_eq!(store.contact_request_status(&user(1, "tom")), ContactRequestStatus::RequestSent);
    assert_eq!(store.contact_request_status(&user(1, "max")), ContactRequestStatus::RequestReceived);
    assert_eq!(store.contact_request_status(&user(1, "zzz")), ContactRequestStatus::NotRequested);
    assert!(store.has_incoming_contact_request(14));
    assert!(!store.has_incoming_contact_request(10));
    assert_eq!(store.contacts().len(), 5);
    assert_eq!(store.outgoing_contact_requests().len(), 3);
    assert_eq!(store.incoming_contact_requests().len(), 2);
}

#[test]
fn requests_are_counted_until_answered() {
    let mut store = UserStore::new();
    let bob = user(2, "bob");
    assert_eq!(store.request_contact(2, true), Ok(ContactMessage::RequestContact { responder_id: 2 }));
    assert_eq!(
        store.respond_to_contact_request(2, true, true),
        Ok(ContactMessage::RespondToContactRequest {
            requester_id: 2,
            response: ContactRequestResponse::Accept,
        })
    );
    assert_eq!(store.pending_contact_requests[&2], 2);
    store.finish_contact_request(2);
    assert!(store.is_contact_request_pending(&bob));
    store.finish_contact_request(2);
    assert!(!store.is_contact_request_pending(&bob));
    store.finish_contact_request(2);
    assert!(!store.is_contact_request_pending(&bob));
    assert_eq!(
        store.respond_to_contact_request(3, false, true),
        Ok(ContactMessage::RespondToContactRequest {
            requester_id: 3,
            response: ContactRequestResponse::Decline,
        })
    );
}

#[test]
fn requests_without_a_client_fail() {
    let mut store = UserStore::new();
    assert_eq!(store.request_contact(2, false), Err(UserStoreError::ClientGone));
    assert_eq!(store.respond_to_contact_request(2, true, false), Err(UserStoreError::ClientGone));
    assert_eq!(store.pending_contact_requests[&2], 2);
    assert_eq!(store.dismiss_contact_request(2, false), Err(UserStoreError::ClientGone));
    assert_eq!(
        store.dismiss_contact_request(2, true),
        Ok(ContactMessage::RespondToContactRequest {
            requester_id: 2,
            response: ContactRequestResponse::Dismiss,
        })
    );
    store.remove_contact(2);
    assert_eq!(store.pending_contact_requests[&2], 2);
}

#[test]
fn inserted_users_are_found() {
    let mut store = UserStore::new();
    let inserted = store.insert(vec![message(1, "ada"), message(2, "bob")]);
    assert_eq!(inserted.len(), 2);
    assert_eq!(inserted[1].github_login, "bob");
    assert_eq!(store.get_cached_user(1).unwrap().github_login, "ada");
    assert_eq!(store.cached_user_by_github_login("bob").unwrap().id, 2);
    assert!(store.cached_user_by_github_login("eve").is_none());
    store.clear_cache();
    assert!(store.get_cached_user(1).is_none());
    assert!(store.cached_user_by_github_login("bob").is_none());
}

#[test]
fn old_logins_are_forgotten() {
    let mut store = UserStore::new();
    store.insert(vec![message(1, "ada")]);
    store.insert(vec![message(1, "lovelace")]);
    assert!(store.cached_user_by_github_login("ada").is_none());
    assert_eq!(store.cached_user_by_github_login("lovelace").unwrap().id, 1);
    store.insert(vec![message(2, "lovelace")]);
    assert_eq!(store.cached_user_by_github_login("lovelace").unwrap().id, 2);
    assert_eq!(store.get_cached_user(1).unwrap().github_login, "lovelace");
}

#[test]
fn a_login_given_up_by_its_former_owner_is_not_found() {
    let mut store = UserStore::new();
    store.insert(vec![message(1, "ada"), message(2, "ada"), message(1, "eve")]);
    assert!(store.cached_user_by_github_login("ada").is_none());
    assert_eq!(store.get_cached_user(2).unwrap().github_login, "ada");
}

#[test]
fn unknown_users_are_loaded() {
    let mut store = UserStore::new();
    store.insert(vec![message(1, "ada")]);
    let wanted = vec![3, 1, 2, 3];
    assert_eq!(store.get_users(&wanted), vec![3, 2, 3]);
    assert_eq!(store.loaded_users(&wanted).err(), Some(UserStoreError::UserNotFound(3)));
    assert!(store.load_users(None).is_empty());
    assert_eq!(store.load_users(Some(vec![message(3, "eve")])).len(), 1);
    assert_eq!(store.loaded_users(&wanted).err(), Some(UserStoreError::UserNotFound(2)));
    store.load_users(Some(vec![message(2, "bob")]));
    let users = store.loaded_users(&wanted).unwrap();
    assert_eq!(users.iter().map(|user| user.id).collect::<Vec<_>>(), wanted);
    assert!(store.get_users(&wanted).is_empty());
}

#[test]
fn single_users() {
    let mut store = UserStore::new();
    assert!(matches!(store.get_user(1), UserLookup::Load(ids) if ids == vec![1]));
    assert!(matches!(store.get_user_optimistic(1), UserLookup::Load(ids) if ids == vec![1]));
    assert_eq!(store.loaded_user(1).err(), Some(UserStoreError::NoUsers));
    store.insert(vec![message(1, "ada")]);
    assert!(matches!(store.get_user(1), UserLookup::Cached(user) if user.id == 1));
    assert!(matches!(store.get_user_optimistic(1), UserLookup::Cached(user) if user.id == 1));
    assert_eq!(store.loaded_user(1).unwrap().id, 1);
}

#[test]
fn participants() {
    let mut store = UserStore::new();
    let indices = || HashMap::from([(1, ParticipantIndex(0)), (2, ParticipantIndex(1))]);
    assert!(store.set_participant_indices(HashMap::new()).is_none());
    assert!(matches!(store.set_participant_indices(indices()), Some(Event::ParticipantIndicesChanged)));
    assert!(store.set_participant_indices(indices()).is_none());
    let mut changed = indices();
    changed.insert(2, ParticipantIndex(5));
    assert!(store.set_participant_indices(changed).is_some());
    let mut fewer = indices();
    fewer.remove(&1);
    fewer.insert(2, ParticipantIndex(5));
    assert!(store.set_participant_indices(fewer).is_some());
    assert_eq!(store.participant_indices().len(), 1);
}

#[test]
fn names_of_participants() {
    let mut store = UserStore::new();
    store.insert(vec![message(1, "ada"), message(2, "bob")]);
    let (names, missing) = store.participant_names(&vec![2, 7, 1, 8]);
    assert_eq!(names, HashMap::from([(1, "ada".to_string()), (2, "bob".to_string())]));
    assert_eq!(missing, vec![7, 8]);
}
