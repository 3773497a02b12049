//! The credential-store adapter: three operations keyed by a profile
//! identifier, against the platform's native store. The store itself
//! answers as it pleases; what each answer means for the caller is
//! decided here and proved: a missing entry is an absent value on
//! lookup and a success on deletion, never an error.

use vstd::prelude::*;

verus! {

/// What the store answered when asked to save a secret.
#[derive(Debug, PartialEq, Eq)]
pub enum StoreOutcome {
    /// The secret was saved.
    Stored,
    /// The store failed; carries its message.
    Failed(String),
}

/// What the store answered when asked for a secret.
#[derive(Debug, PartialEq, Eq)]
pub enum FetchOutcome {
    /// The secret under the identifier.
    Found(String),
    /// No entry exists under the identifier.
    Missing,
    /// The store failed; carries its message.
    Failed(String),
}

/// What the store answered when asked to delete a secret.
#[derive(Debug, PartialEq, Eq)]
pub enum EraseOutcome {
    /// The entry was deleted.
    Erased,
    /// No entry existed under the identifier.
    Missing,
    /// The store failed; carries its message.
    Failed(String),
}

/// A credential-store failure as the caller sees it.
#[derive(Debug, PartialEq, Eq)]
pub enum KeychainError {
    /// The store's own message.
    Backend(String),
}

/// The service namespace under which every secret is stored.
pub fn service_name() -> (r: &'static str)
    ensures
        r@ == "com.openquery.app"@,
{
    "com.openquery.app"
}

/// Relies on keyring::Entry::new and Entry::set_password: saves the
/// secret for (service, user). The answer depends on the platform
/// store, so nothing is assumed about which outcome comes back.
#[verifier::external_body]
fn store_secret(service: &str, user: &str, secret: &str) -> (r: StoreOutcome) {
    match keyring::Entry::new(service, user) {
        Ok(entry) => match entry.set_password(secret) {
            Ok(()) => StoreOutcome::Stored,
            Err(e) => StoreOutcome::Failed(e.to_string()),
        },
        Err(e) => StoreOutcome::Failed(e.to_string()),
    }
}

/// Relies on keyring::Entry::new and Entry::get_password, and on
/// keyring::Error::NoEntry marking exactly the missing-entry case.
#[verifier::external_body]
fn fetch_secret(service: &str, user: &str) -> (r: FetchOutcome) {
    match keyring::Entry::new(service, user) {
        Ok(entry) => match entry.get_password() {
            Ok(pw) => FetchOutcome::Found(pw),
            Err(keyring::Error::NoEntry) => FetchOutcome::Missing,
            Err(e) => FetchOutcome::Failed(e.to_string()),
        },
        Err(e) => FetchOutcome::Failed(e.to_string()),
    }
}

/// Relies on keyring::Entry::new and Entry::delete_credential, and on
/// keyring::Error::NoEntry marking exactly the missing-entry case.
#[verifier::external_body]
fn erase_secret(service: &str, user: &str) -> (r: EraseOutcome) {
    match keyring::Entry::new(service, user) {
        Ok(entry) => match entry.delete_credential() {
            Ok(()) => EraseOutcome::Erased,
            Err(keyring::Error::NoEntry) => EraseOutcome::Missing,
            Err(e) => EraseOutcome::Failed(e.to_string()),
        },
        Err(e) => EraseOutcome::Failed(e.to_string()),
    }
}

/// What a save answer means: success as itself, a failure with the
/// store's message.
pub fn interpret_store(o: StoreOutcome) -> (r: Result<(), KeychainError>)
    ensures
        match o {
            StoreOutcome::Stored => r == Ok::<(), KeychainError>(()),
            StoreOutcome::Failed(m) => (
                r matches Err(KeychainError::Backend(w)) && w@ == m@
            ),
        },
{
    match o {
        StoreOutcome::Stored => Ok(()),
        StoreOutcome::Failed(m) => Err(KeychainError::Backend(m)),
    }
}

/// What a lookup answer means: a found secret, an absent value for a
/// missing entry (not an error), a failure with the store's message.
pub fn interpret_fetch(o: FetchOutcome) -> (r: Result<Option<String>, KeychainError>)
    ensures
        match o {
            FetchOutcome::Found(pw) => (r matches Ok(p) && p matches Some(s) && s@ == pw@),
            FetchOutcome::Missing => r == Ok::<Option<String>, KeychainError>(None),
            FetchOutcome::Failed(m) => (
                r matches Err(KeychainError::Backend(w)) && w@ == m@
            ),
        },
{
    match o {
        FetchOutcome::Found(pw) => Ok(Some(pw)),
        FetchOutcome::Missing => Ok(None),
        FetchOutcome::Failed(m) => Err(KeychainError::Backend(m)),
    }
}

/// What a deletion answer means: success as itself, success again for
/// a missing entry (deleting what is already gone is no error), a
/// failure with the store's message.
pub fn interpret_erase(o: EraseOutcome) -> (r: Result<(), KeychainError>)
    ensures
        match o {
            EraseOutcome::Erased => r == Ok::<(), KeychainError>(()),
            EraseOutcome::Missing => r == Ok::<(), KeychainError>(()),
            EraseOutcome::Failed(m) => (
                r matches Err(KeychainError::Backend(w)) && w@ == m@
            ),
        },
{
    match o {
        EraseOutcome::Erased => Ok(()),
        EraseOutcome::Missing => Ok(()),
        EraseOutcome::Failed(m) => Err(KeychainError::Backend(m)),
    }
}

/// Saves the secret for the profile; whatever the store answered is
/// interpreted by `interpret_store`.
pub fn set_password(profile_id: &str, password: &str) -> (r: Result<(), KeychainError>) {
    interpret_store(store_secret(service_name(), profile_id, password))
}

/// Looks the profile's secret up; whatever the store answered is
/// interpreted by `interpret_fetch`.
pub fn get_password(profile_id: &str) -> (r: Result<Option<String>, KeychainError>) {
    interpret_fetch(fetch_secret(service_name(), profile_id))
}

/// Deletes the profile's secret; whatever the store answered is
/// interpreted by `interpret_erase`.
pub fn delete_password(profile_id: &str) -> (r: Result<(), KeychainError>) {
    interpret_erase(erase_secret(service_name(), profile_id))
}

} // verus!
