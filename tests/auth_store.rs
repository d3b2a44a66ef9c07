use async_inotify::auth::{
    token_valid, AuthLevel, AuthStore, FailureReason, RefreshTokens, TokenPair,
    UserAuthorization,
};

fn auth(password: &str, auth_level: AuthLevel) -> UserAuthorization {
    UserAuthorization {
        password: password.to_string(),
        auth_level,
    }
}

#[test]
fn default_store_has_one_admin() {
    let store = AuthStore::default_store();
    let admin = store.get_username("admin").expect("admin is known");
    assert_eq!(admin.username(), "admin");
    let found = store.get(&admin).expect("admin has credentials");
    assert_eq!(found.password, "mcmanager");
    assert_eq!(found.auth_level, AuthLevel::Admin);
    assert!(store.get_username("bob").is_none());
}

#[test]
fn create_refuses_a_taken_name() {
    let mut store = AuthStore::default_store();
    let made = store
        .create("bob".to_string(), auth("hunter2", AuthLevel::ReadOnly))
        .map(|a| a.password.clone());
    assert_eq!(made, Ok("hunter2".to_string()));
    assert!(store
        .create("bob".to_string(), auth("other", AuthLevel::Admin))
        .is_err());
    let bob = store.get_username("bob").unwrap();
    assert_eq!(store.get(&bob).unwrap().password, "hunter2");
    assert_eq!(store.get(&bob).unwrap().auth_level, AuthLevel::ReadOnly);
}

#[test]
fn update_replaces_only_known_users() {
    let mut store = AuthStore::default_store();
    let admin = store.get_username("admin").unwrap();
    assert!(store.update(&admin, auth("changed", AuthLevel::ReadOnly)));
    assert_eq!(store.get(&admin).unwrap().password, "changed");
    assert_eq!(store.get(&admin).unwrap().auth_level, AuthLevel::ReadOnly);

    let mut other = AuthStore::default_store();
    other
        .create("carol".to_string(), auth("x", AuthLevel::Admin))
        .unwrap();
    let carol = other.get_username("carol").unwrap();
    assert!(!store.update(&carol, auth("y", AuthLevel::Admin)));
    assert!(store.get(&carol).is_none());
}

#[test]
fn tokens_expire_after_their_lifetimes() {
    let store = AuthStore::default_store();
    let admin = store.get_username("admin").unwrap();
    let pair = TokenPair::for_user_at(&admin, 1_000);
    assert_eq!(pair.auth.username, "admin");
    assert_eq!(pair.refresh.username, "admin");
    assert_eq!(pair.auth.expiry, 1_300);
    assert_eq!(pair.refresh.expiry, 8_200);

    let late = TokenPair::for_user_at(&admin, u64::MAX - 1_000);
    assert_eq!(late.auth.expiry, u64::MAX - 700);
    assert_eq!(late.refresh.expiry, u64::MAX);

    let now = TokenPair::for_user(&admin).expect("clock after the epoch");
    assert_eq!(now.refresh.expiry - now.auth.expiry, 6_900);
}

#[test]
fn authorize_checks_name_then_password() {
    let store = AuthStore::default_store();
    let admin = store.authorize("admin", "mcmanager").expect("right password");
    assert_eq!(admin.username(), "admin");
    assert_eq!(
        store.authorize("admin", "wrong").err(),
        Some(FailureReason::IncorrectPass)
    );
    assert_eq!(
        store.authorize("nobody", "mcmanager").err(),
        Some(FailureReason::NoUser)
    );
}

#[test]
fn tokens_are_valid_until_their_expiry() {
    assert!(token_valid(100, 99));
    assert!(!token_valid(100, 100));
    assert!(!token_valid(100, 101));
}

#[test]
fn empty_store_lists_what_is_created() {
    let mut store = AuthStore::new();
    assert!(store.entries().is_empty());
    store
        .create("dave".to_string(), auth("pw", AuthLevel::ReadOnly))
        .unwrap();
    let entries = store.entries();
    assert_eq!(entries.len(), 1);
    assert_eq!(entries[0].0, "dave");
    assert_eq!(entries[0].1.password, "pw");
}

#[test]
fn refresh_tokens_redeem_until_expiry() {
    let store = AuthStore::default_store();
    let admin = store.get_username("admin").unwrap();
    let mut tokens = RefreshTokens::new();
    assert_eq!(tokens.redeem("t1", 0).err(), Some(FailureReason::NoToken));

    tokens.insert("t1".to_string(), admin.clone(), 100);
    let user = tokens.redeem("t1", 50).expect("unexpired");
    assert_eq!(user.username(), "admin");
    assert!(tokens.redeem("t1", 99).is_ok());

    assert_eq!(tokens.redeem("t1", 100).err(), Some(FailureReason::NoToken));
    assert_eq!(tokens.redeem("t1", 0).err(), Some(FailureReason::NoToken));
}

#[test]
fn refresh_tokens_replace_and_keep_others() {
    let mut store = AuthStore::default_store();
    store
        .create("erin".to_string(), auth("pw", AuthLevel::ReadOnly))
        .unwrap();
    let admin = store.get_username("admin").unwrap();
    let erin = store.get_username("erin").unwrap();
    let mut tokens = RefreshTokens::new();
    tokens.insert("a".to_string(), admin.clone(), 10);
    tokens.insert("b".to_string(), erin.clone(), 10);
    tokens.insert("a".to_string(), erin, 1_000);
    assert_eq!(tokens.redeem("a", 500).unwrap().username(), "erin");
    assert_eq!(tokens.redeem("b", 20).err(), Some(FailureReason::NoToken));
    assert_eq!(tokens.redeem("a", 500).unwrap().username(), "erin");
}
