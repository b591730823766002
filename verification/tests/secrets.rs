use firefly::error::AppError;
use firefly::secrets::{
    deletion_outcome, delete_device_token, delete_litellm_key, device_account, get_device_token,
    get_litellm_key, keyring_error, litellm_account, set_device_token, set_litellm_key,
    token_outcome, write_outcome, KeyringFault, KEYCHAIN_UNAVAILABLE,
};

fn use_mock_store() {
    keyring::set_default_credential_builder(keyring::mock::default_credential_builder());
}

#[test]
fn account_names() {
    assert_eq!(device_account("u1"), "device-token:u1");
    assert_eq!(litellm_account("u1"), "litellm-key:u1");
}

#[test]
fn empty_or_missing_password_is_no_token() {
    assert!(matches!(token_outcome(Ok(String::new())), Err(AppError::NoToken)));
    assert!(matches!(
        token_outcome(Err(KeyringFault::NoEntry(keyring::Error::NoEntry))),
        Err(AppError::NoToken)
    ));
    assert_eq!(token_outcome(Ok("tok".to_string())).unwrap(), "tok");
}

#[test]
fn locked_store_gives_guidance() {
    match token_outcome(Err(KeyringFault::NoStorageAccess)) {
        Err(AppError::KeychainUnavailable(m)) => assert_eq!(m, KEYCHAIN_UNAVAILABLE),
        other => panic!("unexpected {other:?}"),
    }
    assert!(matches!(keyring_error(KeyringFault::NoStorageAccess), AppError::KeychainUnavailable(_)));
    match keyring_error(KeyringFault::PlatformFailure) {
        AppError::KeychainUnavailable(m) => assert_eq!(m, KEYCHAIN_UNAVAILABLE),
        other => panic!("unexpected {other:?}"),
    }
    assert!(matches!(
        keyring_error(KeyringFault::Other(keyring::Error::Invalid("a".into(), "b".into()))),
        AppError::Keychain(keyring::Error::Invalid(_, _))
    ));
}

#[test]
fn deleting_a_missing_entry_is_fine() {
    assert!(deletion_outcome(Ok(())).is_ok());
    assert!(deletion_outcome(Err(KeyringFault::NoEntry(keyring::Error::NoEntry))).is_ok());
    assert!(matches!(
        deletion_outcome(Err(KeyringFault::PlatformFailure)),
        Err(AppError::KeychainUnavailable(_))
    ));
    assert!(matches!(
        write_outcome(Err(KeyringFault::NoEntry(keyring::Error::NoEntry))),
        Err(AppError::Keychain(keyring::Error::NoEntry))
    ));
}

#[test]
fn mock_store_round_trip() {
    use_mock_store();
    // Mock entries do not persist across `Entry` values: each read sees an empty store.
    assert!(set_device_token("u1", "dt").is_ok());
    assert!(set_litellm_key("u1", "lk").is_ok());
    assert!(matches!(get_device_token("u1"), Err(AppError::NoToken)));
    assert!(matches!(get_litellm_key("u1"), Err(AppError::NoToken)));
    assert!(delete_device_token("u1").is_ok());
    assert!(delete_litellm_key("u1").is_ok());
}
