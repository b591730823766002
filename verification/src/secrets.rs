//! Per-user tokens in the OS keychain: the sync device token and the
//! LiteLLM key. They are read only here and never handed to the UI.

use vstd::prelude::*;

use crate::error::AppError;
use crate::text::{append_chars, chars_of, string_of};

verus! {

#[verifier::external_type_specification]
#[verifier::external_body]
pub struct ExKeyringEntry(keyring::Entry);

/// The keychain service under which all of the app's entries live.
pub const SERVICE: &'static str = "net.nsokol.firefly";

/// Guidance shown when the keychain itself cannot be reached.
pub const KEYCHAIN_UNAVAILABLE: &'static str = "secure storage is unavailable. On Linux, start a Secret Service provider (e.g. gnome-keyring-daemon or KWallet) and unlock your login keyring, then try again.";

/// A keychain failure, one variant for each kind of `keyring::Error` that
/// the app tells apart.
#[derive(Debug)]
pub enum KeyringFault {
    /// The platform store could not be reached (locked or missing).
    NoStorageAccess,
    /// The platform store failed.
    PlatformFailure,
    /// There is no entry; the keychain's error is kept.
    NoEntry(keyring::Error),
    /// Any other failure; the keychain's error is kept.
    Other(keyring::Error),
}

/// `keyring::Entry::new` for the app's service and an account name. Whether
/// it succeeds depends on the platform store, so nothing is stated.
#[verifier::external_body]
fn open_entry(service: &str, account: &str) -> Result<keyring::Entry, keyring::Error> {
    keyring::Entry::new(service, account)
}

/// `keyring::Entry::set_password`. The outcome depends on the platform
/// store, so nothing is stated.
#[verifier::external_body]
fn store_password(entry: &keyring::Entry, password: &str) -> Result<(), keyring::Error> {
    entry.set_password(password)
}

/// `keyring::Entry::get_password`. What comes back depends on what the
/// platform store holds, so nothing is stated.
#[verifier::external_body]
fn load_password(entry: &keyring::Entry) -> Result<String, keyring::Error> {
    entry.get_password()
}

/// `keyring::Entry::delete_credential`. The outcome depends on the platform
/// store, so nothing is stated.
#[verifier::external_body]
fn remove_credential(entry: &keyring::Entry) -> Result<(), keyring::Error> {
    entry.delete_credential()
}

/// Tells the variants of `keyring::Error` apart, one arm each:
/// `NoStorageAccess` and `PlatformFailure` (their platform payload is
/// dropped), `NoEntry`, and every other variant, which is kept whole.
/// The contract says nothing of which variant a given error has.
#[verifier::external_body]
fn classify(e: keyring::Error) -> KeyringFault {
    match e {
        keyring::Error::NoStorageAccess(_) => KeyringFault::NoStorageAccess,
        keyring::Error::PlatformFailure(_) => KeyringFault::PlatformFailure,
        keyring::Error::NoEntry => KeyringFault::NoEntry(e),
        other => KeyringFault::Other(other),
    }
}

/// The app error for a keychain failure: a missing or locked store, or a
/// platform failure, becomes actionable guidance; any other failure is
/// passed on as it is.
pub fn keyring_error(f: KeyringFault) -> (r: AppError)
    ensures
        match f {
            KeyringFault::NoStorageAccess | KeyringFault::PlatformFailure => r matches AppError::KeychainUnavailable(
                m,
            ) && m@ == KEYCHAIN_UNAVAILABLE@,
            KeyringFault::NoEntry(e) => r == AppError::Keychain(e),
            KeyringFault::Other(e) => r == AppError::Keychain(e),
        },
{
    match f {
        KeyringFault::NoStorageAccess | KeyringFault::PlatformFailure => AppError::KeychainUnavailable(
            string_of(chars_of(KEYCHAIN_UNAVAILABLE).as_slice()),
        ),
        KeyringFault::NoEntry(e) => AppError::Keychain(e),
        KeyringFault::Other(e) => AppError::Keychain(e),
    }
}

/// The result of reading a token, given what the keychain returned: a
/// non-empty password is the token; an empty one or a missing entry means
/// no token; any other failure is reported.
pub fn token_outcome(got: Result<String, KeyringFault>) -> (r: Result<String, AppError>)
    ensures
        match got {
            Ok(t) => if t@.len() > 0 {
                r matches Ok(u) && u@ == t@
            } else {
                r matches Err(AppError::NoToken)
            },
            Err(KeyringFault::NoEntry(_)) => r matches Err(AppError::NoToken),
            Err(KeyringFault::NoStorageAccess) | Err(KeyringFault::PlatformFailure) => r matches Err(
                AppError::KeychainUnavailable(m),
            ) && m@ == KEYCHAIN_UNAVAILABLE@,
            Err(KeyringFault::Other(e)) => r == Err::<String, AppError>(AppError::Keychain(e)),
        },
{
    match got {
        Ok(t) => {
            if t.as_str().is_empty() {
                Err(AppError::NoToken)
            } else {
                Ok(t)
            }
        },
        Err(KeyringFault::NoEntry(_)) => Err(AppError::NoToken),
        Err(f) => Err(keyring_error(f)),
    }
}

/// The result of deleting an entry, given what the keychain returned: a
/// missing entry counts as deleted.
pub fn deletion_outcome(got: Result<(), KeyringFault>) -> (r: Result<(), AppError>)
    ensures
        match got {
            Ok(_) => r is Ok,
            Err(KeyringFault::NoEntry(_)) => r is Ok,
            Err(KeyringFault::NoStorageAccess) | Err(KeyringFault::PlatformFailure) => r matches Err(
                AppError::KeychainUnavailable(m),
            ) && m@ == KEYCHAIN_UNAVAILABLE@,
            Err(KeyringFault::Other(e)) => r == Err::<(), AppError>(AppError::Keychain(e)),
        },
{
    match got {
        Ok(()) => Ok(()),
        Err(KeyringFault::NoEntry(_)) => Ok(()),
        Err(f) => Err(keyring_error(f)),
    }
}

/// The result of a write, given what the keychain returned.
pub fn write_outcome(got: Result<(), KeyringFault>) -> (r: Result<(), AppError>)
    ensures
        match got {
            Ok(_) => r is Ok,
            Err(KeyringFault::NoStorageAccess) | Err(KeyringFault::PlatformFailure) => r matches Err(
                AppError::KeychainUnavailable(m),
            ) && m@ == KEYCHAIN_UNAVAILABLE@,
            Err(KeyringFault::NoEntry(e)) => r == Err::<(), AppError>(AppError::Keychain(e)),
            Err(KeyringFault::Other(e)) => r == Err::<(), AppError>(AppError::Keychain(e)),
        },
{
    match got {
        Ok(()) => Ok(()),
        Err(f) => Err(keyring_error(f)),
    }
}

/// The keychain account of a user's sync device token.
pub open spec fn spec_device_account(user_id: Seq<char>) -> Seq<char> {
    "device-token:"@ + user_id
}

/// The keychain account of a user's LiteLLM key.
pub open spec fn spec_litellm_account(user_id: Seq<char>) -> Seq<char> {
    "litellm-key:"@ + user_id
}

/// Distinct users get distinct keychain entries, and a device token never
/// shares an entry with a LiteLLM key.
pub proof fn law_accounts_are_distinct(u: Seq<char>, v: Seq<char>)
    ensures
        spec_device_account(u) != spec_litellm_account(v),
        u != v ==> spec_device_account(u) != spec_device_account(v),
        u != v ==> spec_litellm_account(u) != spec_litellm_account(v),
{
    reveal_strlit("device-token:");
    reveal_strlit("litellm-key:");
    assert(spec_device_account(u)[0] == 'd');
    assert(spec_litellm_account(v)[0] == 'l');
    let dp = "device-token:"@;
    let lp = "litellm-key:"@;
    assert(spec_device_account(u).skip(dp.len() as int) =~= u);
    assert(spec_device_account(v).skip(dp.len() as int) =~= v);
    assert(spec_litellm_account(u).skip(lp.len() as int) =~= u);
    assert(spec_litellm_account(v).skip(lp.len() as int) =~= v);
}

/// The keychain account of a user's sync device token.
pub fn device_account(user_id: &str) -> (r: String)
    ensures
        r@ == spec_device_account(user_id@),
{
    let mut a = chars_of("device-token:");
    append_chars(&mut a, chars_of(user_id).as_slice());
    string_of(a.as_slice())
}

/// The keychain account of a user's LiteLLM key.
pub fn litellm_account(user_id: &str) -> (r: String)
    ensures
        r@ == spec_litellm_account(user_id@),
{
    let mut a = chars_of("litellm-key:");
    append_chars(&mut a, chars_of(user_id).as_slice());
    string_of(a.as_slice())
}

/// Whether an error is one that a keychain operation can report: the
/// keychain's own error, or the guidance for an unreachable keychain.
pub open spec fn is_keychain_error(e: AppError) -> bool {
    e is Keychain || (e matches AppError::KeychainUnavailable(m) && m@ == KEYCHAIN_UNAVAILABLE@)
}

fn entry(account: &str) -> (r: Result<keyring::Entry, AppError>)
    ensures
        r matches Err(e) ==> is_keychain_error(e),
{
    match open_entry(SERVICE, account) {
        Ok(e) => Ok(e),
        Err(e) => Err(keyring_error(classify(e))),
    }
}

fn write(account: &str, secret: &str) -> (r: Result<(), AppError>)
    ensures
        r matches Err(e) ==> is_keychain_error(e),
{
    let e = entry(account)?;
    let got = match store_password(&e, secret) {
        Ok(()) => Ok(()),
        Err(err) => Err(classify(err)),
    };
    write_outcome(got)
}

fn read(account: &str) -> (r: Result<String, AppError>)
    ensures
        r matches Ok(t) ==> t@.len() > 0,
        r matches Err(e) ==> is_keychain_error(e) || e is NoToken,
{
    let e = entry(account)?;
    let got = match load_password(&e) {
        Ok(t) => Ok(t),
        Err(err) => Err(classify(err)),
    };
    token_outcome(got)
}

fn delete(account: &str) -> (r: Result<(), AppError>)
    ensures
        r matches Err(e) ==> is_keychain_error(e),
{
    let e = entry(account)?;
    let got = match remove_credential(&e) {
        Ok(()) => Ok(()),
        Err(err) => Err(classify(err)),
    };
    deletion_outcome(got)
}

/// Store a user's sync device token.
pub fn set_device_token(user_id: &str, token: &str) -> (r: Result<(), AppError>)
    ensures
        r matches Err(e) ==> is_keychain_error(e),
{
    write(device_account(user_id).as_str(), token)
}

/// Read a user's sync device token. Never exposed to the webview.
pub fn get_device_token(user_id: &str) -> (r: Result<String, AppError>)
    ensures
        r matches Ok(t) ==> t@.len() > 0,
        r matches Err(e) ==> is_keychain_error(e) || e is NoToken,
{
    read(device_account(user_id).as_str())
}

/// Store a user's per-user LiteLLM virtual key.
pub fn set_litellm_key(user_id: &str, key: &str) -> (r: Result<(), AppError>)
    ensures
        r matches Err(e) ==> is_keychain_error(e),
{
    write(litellm_account(user_id).as_str(), key)
}

/// Read a user's per-user LiteLLM virtual key. Never exposed to the webview.
pub fn get_litellm_key(user_id: &str) -> (r: Result<String, AppError>)
    ensures
        r matches Ok(t) ==> t@.len() > 0,
        r matches Err(e) ==> is_keychain_error(e) || e is NoToken,
{
    read(litellm_account(user_id).as_str())
}

/// Remove a user's sync device token; a missing one is not an error.
pub fn delete_device_token(user_id: &str) -> (r: Result<(), AppError>)
    ensures
        r matches Err(e) ==> is_keychain_error(e),
{
    delete(device_account(user_id).as_str())
}

/// Remove a user's LiteLLM key; a missing one is not an error.
pub fn delete_litellm_key(user_id: &str) -> (r: Result<(), AppError>)
    ensures
        r matches Err(e) ==> is_keychain_error(e),
{
    delete(litellm_account(user_id).as_str())
}

} // verus!
