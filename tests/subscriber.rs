use flood_alert::subscriber::{InvalidToken, NotFound, SignupError, SubscriberStore};
use flood_alert::token::issue;
use flood_alert::{UnsubscribeParams, User};

fn candidate(id: &str, email: &str, token: &str) -> User {
    User {
        id: id.to_string(),
        email: email.to_string(),
        is_verified: false,
        verification_token: token.to_string(),
        is_subscribed: false,
    }
}

fn active_store(email: &str) -> (SubscriberStore, String) {
    let mut store = SubscriberStore::new();
    store.sign_up(candidate("id-1", email, "tok-1")).unwrap();
    store.verify(&"tok-1".to_string()).unwrap();
    (store, "id-1".to_string())
}

#[test]
fn test_user_defaults() {
    let email = "test@example.com".to_string();
    let user = User::new(email.clone());

    assert_eq!(user.email, email);
    assert!(!user.id.is_empty(), "ID should be generated");
    assert!(
        !user.verification_token.is_empty(),
        "Token should be generated"
    );
    assert_eq!(user.is_verified, false);
    assert_eq!(user.is_subscribed, false);
}

#[test]
fn new_users_get_distinct_ids_and_tokens() {
    let a = User::new("a@example.com".to_string());
    let b = User::new("a@example.com".to_string());
    assert_eq!(a.id.len(), 36);
    assert_eq!(a.verification_token.len(), 36);
    assert_ne!(a.id, b.id);
    assert_ne!(a.verification_token, b.verification_token);
}

#[test]
fn sign_up_success() {
    let mut store = SubscriberStore::new();
    let user = store
        .sign_up(User::new("some@email.com".into()))
        .unwrap();
    assert_eq!(user.email, "some@email.com");
    let email = flood_alert::notify::verification_email(&user, "http://127.0.0.1:3000", "s");
    assert!(email.plain_text.contains("/verify?token="));
}

#[test]
fn sign_up_existing_user() {
    let (mut store, _) = active_store("some@email.com");
    match store.sign_up(User::new("some@email.com".into())) {
        Err(e) => {
            assert_eq!(e.status_code(), 409);
            assert_eq!(e.message(), "Email already registered and verified");
        }
        Ok(_) => panic!("Expected conflict error for existing verified user"),
    }
}

#[test]
fn verify_success() {
    let mut store = SubscriberStore::new();
    let user = store.sign_up(User::new("some@email.com".into())).unwrap();
    let verified = store.verify(&user.verification_token).unwrap();
    assert_eq!(verified.email, "some@email.com");
    assert!(verified.is_verified && verified.is_subscribed);
}

#[test]
fn verify_invalid_token() {
    let mut store = SubscriberStore::new();
    store.sign_up(candidate("id-1", "some@email.com", "tok-1")).unwrap();
    match store.verify(&"invalid_token".to_string()) {
        Err(NotFound) => {}
        Ok(_) => panic!("Expected bad request error for invalid token"),
    }
}

#[test]
fn signup_then_verify_then_reuse_token() {
    let mut store = SubscriberStore::new();
    let created = store.sign_up(candidate("id-a", "a@example.com", "tok-a")).unwrap();
    assert_eq!(store.len(), 1);
    let row = store.get(0);
    assert_eq!(row.email, "a@example.com");
    assert!(!row.is_verified);
    assert!(!row.is_subscribed);

    let verified = store.verify(&created.verification_token).unwrap();
    assert_eq!(verified.email, "a@example.com");
    let row = store.get(0);
    assert!(row.is_verified);
    assert!(row.is_subscribed);

    assert_eq!(store.verify(&created.verification_token), Err(NotFound));
}

#[test]
fn repeated_signup_renews_token() {
    let mut store = SubscriberStore::new();
    let first = store.sign_up(candidate("id-1", "b@example.com", "tok-1")).unwrap();
    let second = store.sign_up(candidate("id-2", "b@example.com", "tok-2")).unwrap();
    assert_ne!(first.verification_token, second.verification_token);
    assert_eq!(second.verification_token, "tok-2");
    assert_eq!(second.id, "id-1");
    assert_eq!(store.len(), 1);
    assert_eq!(store.verify(&"tok-1".to_string()), Err(NotFound));
    assert!(store.verify(&"tok-2".to_string()).is_ok());
}

#[test]
fn signup_of_active_address_conflicts_and_keeps_record() {
    let (mut store, _) = active_store("c@example.com");
    let before = store.get(0);
    let r = store.sign_up(candidate("id-9", "c@example.com", "tok-9"));
    assert_eq!(r, Err(SignupError::Conflict));
    assert_eq!(store.get(0), before);
    assert_eq!(store.len(), 1);
}

#[test]
fn signup_with_invalid_email_is_refused() {
    let mut store = SubscriberStore::new();
    for bad in ["", "not-an-email", "a@", "@example.com"] {
        let r = store.sign_up(candidate("id-1", bad, "tok-1"));
        assert_eq!(r, Err(SignupError::InvalidEmail));
        assert_eq!(r.unwrap_err().status_code(), 400);
    }
    assert_eq!(store.len(), 0);
}

#[test]
fn upsert_does_not_validate_the_address() {
    let mut store = SubscriberStore::new();
    let r = store.upsert_pending_signup(candidate("id-1", "plain", "tok-1"));
    assert!(r.is_ok());
    assert_eq!(store.len(), 1);
}

#[test]
fn verified_but_unsubscribed_address_restarts_verification() {
    let (mut store, id) = active_store("d@example.com");
    assert!(store.unsubscribe(&id));
    let again = store.sign_up(candidate("id-2", "d@example.com", "tok-2")).unwrap();
    assert_eq!(again.id, id);
    assert!(!again.is_verified);
    assert!(!again.is_subscribed);
    assert_eq!(again.verification_token, "tok-2");
}

#[test]
fn unsubscribe_reports_whether_anything_changed() {
    let (mut store, id) = active_store("e@example.com");
    assert!(store.unsubscribe(&id));
    assert!(!store.get(0).is_subscribed);
    assert!(store.get(0).is_verified);
    assert!(!store.unsubscribe(&id));
    assert!(!store.unsubscribe(&"unknown".to_string()));
}

#[test]
fn unsubscribe_with_token_checks_the_token() {
    let (mut store, id) = active_store("f@example.com");
    let bad = UnsubscribeParams { id: id.clone(), token: "forged".to_string() };
    assert_eq!(store.unsubscribe_with_token(&bad, "secret"), Err(InvalidToken));
    assert!(store.get(0).is_subscribed);

    let good = UnsubscribeParams { id: id.clone(), token: issue(&id, "secret") };
    assert_eq!(store.unsubscribe_with_token(&good, "secret"), Ok(true));
    assert!(!store.get(0).is_subscribed);
    assert_eq!(store.unsubscribe_with_token(&good, "secret"), Ok(false));
}

#[test]
fn active_recipients_keep_store_order() {
    let mut store = SubscriberStore::new();
    store.sign_up(candidate("id-1", "one@example.com", "t1")).unwrap();
    store.sign_up(candidate("id-2", "two@example.com", "t2")).unwrap();
    store.sign_up(candidate("id-3", "three@example.com", "t3")).unwrap();
    store.verify(&"t3".to_string()).unwrap();
    store.verify(&"t1".to_string()).unwrap();
    let active = store.list_active_recipients();
    let emails: Vec<&str> = active.iter().map(|u| u.email.as_str()).collect();
    assert_eq!(emails, vec!["one@example.com", "three@example.com"]);
}

#[test]
fn empty_store_has_no_recipients() {
    let store = SubscriberStore::new();
    assert!(store.list_active_recipients().is_empty());
}

#[test]
fn load_keeps_addresses_unique() {
    let mut store = SubscriberStore::new();
    assert!(store.load(candidate("id-1", "g@example.com", "t1")));
    assert!(store.load(candidate("id-2", "h@example.com", "t2")));
    assert!(!store.load(candidate("id-3", "g@example.com", "t3")));
    assert_eq!(store.len(), 2);
    assert_eq!(store.get(0).id, "id-1");
    assert_eq!(store.get(1).id, "id-2");
}

#[test]
fn error_statuses_and_messages() {
    assert_eq!(SignupError::InvalidEmail.status_code(), 400);
    assert_eq!(
        SignupError::InvalidEmail.message(),
        "Please provide a valid email address."
    );
    assert_eq!(NotFound.status_code(), 400);
    assert_eq!(
        NotFound.message(),
        "Invalid or already used verification token"
    );
    assert_eq!(InvalidToken.status_code(), 400);
    assert_eq!(InvalidToken.message(), "Invalid unsubscribe link");
}

#[test]
fn signup_with_taken_id_is_refused() {
    let mut store = SubscriberStore::new();
    store.sign_up(candidate("id-1", "i@example.com", "t1")).unwrap();
    let r = store.sign_up(candidate("id-1", "j@example.com", "t2"));
    assert_eq!(r, Err(SignupError::IdTaken));
    assert_eq!(SignupError::IdTaken.status_code(), 500);
    assert_eq!(store.len(), 1);
}

#[test]
fn resignup_keeps_id_even_if_candidate_id_is_taken() {
    let mut store = SubscriberStore::new();
    store.sign_up(candidate("id-1", "k@example.com", "t1")).unwrap();
    store.sign_up(candidate("id-2", "l@example.com", "t2")).unwrap();
    let again = store.sign_up(candidate("id-2", "k@example.com", "t3")).unwrap();
    assert_eq!(again.id, "id-1");
    assert_eq!(again.verification_token, "t3");
}

#[test]
fn load_refuses_a_taken_id() {
    let mut store = SubscriberStore::new();
    assert!(store.load(candidate("id-1", "m@example.com", "t1")));
    assert!(!store.load(candidate("id-1", "n@example.com", "t2")));
    assert_eq!(store.len(), 1);
}
