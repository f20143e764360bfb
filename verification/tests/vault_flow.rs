use credvault::errors::VaultError;
use credvault::service::VaultService;
use credvault::vault::VaultState;

#[test]
fn initialize_once_then_already_initialized() {
    let mut s = VaultService::new();
    assert_eq!(s.initialize("master-secret"), Ok(()));
    assert_eq!(s.initialize("master-secret"), Err(VaultError::AlreadyInitialized));
    assert_eq!(s.initialize("another"), Err(VaultError::AlreadyInitialized));
}

#[test]
fn right_secret_logs_in_and_renews_the_handle() {
    let mut s = VaultService::new();
    let h = s.fresh_session();
    s.initialize("hunter2").unwrap();
    let renewed = s.login("hunter2", h).unwrap();
    assert_ne!(renewed, h);
}

#[test]
fn wrong_secret_is_a_bad_credential() {
    let mut s = VaultService::new();
    let h = s.fresh_session();
    s.initialize("correct horse").unwrap();
    assert!(matches!(s.login("battery staple", h), Err(VaultError::BadCredential)));
}

#[test]
fn login_before_initialize_is_a_bad_credential() {
    let mut s = VaultService::new();
    let h = s.fresh_session();
    assert!(matches!(s.login("anything", h), Err(VaultError::BadCredential)));
}

#[test]
fn verify_master_on_an_empty_vault_is_false() {
    let v = VaultState::new();
    assert!(!v.verify_master("anything"));
    assert!(!v.verify_master(""));
}

#[test]
fn unauthenticated_handles_are_refused() {
    let mut s = VaultService::new();
    let h = s.fresh_session();
    s.initialize("secret").unwrap();
    assert!(matches!(s.add_credential(h, "example.com"), Err(VaultError::Unauthorized)));
    assert!(matches!(s.list_credentials(h), Err(VaultError::Unauthorized)));
    assert!(matches!(s.add_credential(9999, "example.com"), Err(VaultError::Unauthorized)));
    assert!(matches!(s.list_credentials(9999), Err(VaultError::Unauthorized)));
}

#[test]
fn old_handle_is_retired_after_login() {
    let mut s = VaultService::new();
    let h = s.fresh_session();
    s.initialize("secret").unwrap();
    let renewed = s.login("secret", h).unwrap();
    assert!(matches!(s.add_credential(h, "example.com"), Err(VaultError::Unauthorized)));
    assert!(s.add_credential(renewed, "example.com").is_ok());
}

#[test]
fn invalid_site_is_refused_and_stores_nothing() {
    let mut s = VaultService::new();
    let h = s.fresh_session();
    s.initialize("secret").unwrap();
    let renewed = s.login("secret", h).unwrap();
    assert!(matches!(s.add_credential(renewed, "not a url"), Err(VaultError::InvalidSite)));
    assert!(matches!(s.add_credential(renewed, "example"), Err(VaultError::InvalidSite)));
    assert_eq!(s.list_credentials(renewed).unwrap().len(), 0);
}

#[test]
fn listing_preserves_insertion_order() {
    let mut s = VaultService::new();
    let h = s.fresh_session();
    s.initialize("secret").unwrap();
    let renewed = s.login("secret", h).unwrap();
    s.add_credential(renewed, "a.example.com").unwrap();
    s.add_credential(renewed, "b.example.com").unwrap();
    s.add_credential(renewed, "c.example.com").unwrap();
    let list = s.list_credentials(renewed).unwrap();
    assert_eq!(list.len(), 3);
    assert_eq!(list[0].site, "a.example.com");
    assert_eq!(list[1].site, "b.example.com");
    assert_eq!(list[2].site, "c.example.com");
}

#[test]
fn duplicate_sites_are_kept() {
    let mut s = VaultService::new();
    let h = s.fresh_session();
    s.initialize("secret").unwrap();
    let renewed = s.login("secret", h).unwrap();
    s.add_credential(renewed, "example.com").unwrap();
    s.add_credential(renewed, "example.com").unwrap();
    let list = s.list_credentials(renewed).unwrap();
    assert_eq!(list.len(), 2);
    assert_eq!(list[0].site, list[1].site);
}

#[test]
fn stored_secret_is_an_opaque_hash() {
    let mut s = VaultService::new();
    let h = s.fresh_session();
    s.initialize("secret").unwrap();
    let renewed = s.login("secret", h).unwrap();
    let rec = s.add_credential(renewed, "example.com").unwrap();
    assert_eq!(rec.site, "example.com");
    assert_eq!(rec.stored_secret.len(), 60);
    assert!(rec.stored_secret.starts_with("$2b$"));
    assert!(rec.stored_secret.len() != 12);
    let list = s.list_credentials(renewed).unwrap();
    assert_eq!(list[0].stored_secret, rec.stored_secret);
    assert!(list[0].stored_secret.chars().next() == Some('$'));
}

#[test]
fn serialized_adds_all_land() {
    let mut s = VaultService::new();
    let h = s.fresh_session();
    s.initialize("secret").unwrap();
    let renewed = s.login("secret", h).unwrap();
    let before = s.list_credentials(renewed).unwrap().len();
    let n: usize = 3;
    let mut i: usize = 0;
    while i < n {
        assert!(s.add_credential(renewed, "example.com").is_ok());
        i += 1;
    }
    assert_eq!(s.list_credentials(renewed).unwrap().len(), before + n);
}

#[test]
fn two_fresh_sessions_differ() {
    let mut s = VaultService::new();
    let a = s.fresh_session();
    let b = s.fresh_session();
    assert_ne!(a, b);
    assert!(s.session_mark() >= 2);
}
