//! Secrets kept in the platform's credential store, through the `keyring`
//! crate. What the store answers is outside this library's knowledge; what
//! is decided here is how its answers are reported.

use vstd::prelude::*;
use crate::errors::concat;

verus! {

/// `keyring::Entry`, the handle of one credential in the platform's
/// store. Nothing is known of what is inside one.
#[verifier::external_type_specification]
#[verifier::external_body]
pub struct ExEntry(keyring::Entry);

/// `keyring::Error`, a failure of the platform's store. Nothing is known
/// of what is inside one; `fault_of` takes out what is read of it.
#[verifier::external_type_specification]
#[verifier::external_body]
pub struct ExStoreError(keyring::Error);

/// Why a credential could not be had or kept.
#[derive(Debug)]
pub enum CredentialError {
    /// The store holds no credential under the key.
    NotFound,
    /// The store failed; carries what it said.
    StorageError(String),
}

/// The mathematical content of a `CredentialError`.
pub enum CredentialFailure {
    NotFound,
    StorageError(Seq<char>),
}

impl View for CredentialError {
    type V = CredentialFailure;

    open spec fn view(&self) -> CredentialFailure {
        match *self {
            CredentialError::NotFound => CredentialFailure::NotFound,
            CredentialError::StorageError(msg) => CredentialFailure::StorageError(msg@),
        }
    }
}

/// The service under which the application keeps its credentials.
pub const SERVICE_NAME: &'static str = "launchpad";

/// What a failure of the store looks like from here: whether it says that
/// there is no such credential, and its text.
pub struct StoreFault {
    pub no_entry: bool,
    pub text: String,
}

/// The message of a credential failure.
pub open spec fn credential_message(e: CredentialFailure) -> Seq<char> {
    match e {
        CredentialFailure::NotFound => "Credential not found"@,
        CredentialFailure::StorageError(msg) => "Storage error: "@ + msg,
    }
}

impl CredentialError {
    /// The message shown for this failure.
    pub fn message(&self) -> (r: String)
        ensures
            r@ == credential_message(self@),
    {
        match self {
            CredentialError::NotFound => "Credential not found".to_owned(),
            CredentialError::StorageError(msg) => concat("Storage error: ", msg.as_str()),
        }
    }
}

/// `keyring::Entry::new`: the entry of the default store for a service and
/// a user. Nothing is known of the outcome. The crate panics here only when
/// a lock that guards a replaced default store is poisoned; this library
/// never replaces the default store.
#[verifier::external_body]
fn open_entry(service: &str, user: &str) -> (r: Result<keyring::Entry, keyring::Error>) {
    keyring::Entry::new(service, user)
}

/// `keyring::Entry::set_password`. Nothing is known of the outcome.
#[verifier::external_body]
fn write_password(entry: &keyring::Entry, password: &str) -> (r: Result<(), keyring::Error>) {
    entry.set_password(password)
}

/// `keyring::Entry::get_password`. Nothing is known of the outcome.
#[verifier::external_body]
fn read_password(entry: &keyring::Entry) -> (r: Result<String, keyring::Error>) {
    entry.get_password()
}

/// `keyring::Entry::delete_credential`. Nothing is known of the outcome.
#[verifier::external_body]
fn remove_credential(entry: &keyring::Entry) -> (r: Result<(), keyring::Error>) {
    entry.delete_credential()
}

/// Tells `keyring::Error::NoEntry` from the other failures and takes the
/// failure's text, as its `Display` gives it.
#[verifier::external_body]
fn fault_of(e: keyring::Error) -> (r: StoreFault) {
    StoreFault { no_entry: matches!(e, keyring::Error::NoEntry), text: e.to_string() }
}

/// How a failed write or a failed opening of an entry is reported: always
/// as a storage error with the store's text.
pub fn storage_failure(fault: StoreFault) -> (e: CredentialError)
    ensures
        e@ == CredentialFailure::StorageError(fault.text@),
{
    CredentialError::StorageError(fault.text)
}

/// How a failed read is reported: a missing credential as `NotFound`,
/// anything else as a storage error with the store's text.
pub fn read_failure(fault: StoreFault) -> (e: CredentialError)
    ensures
        e@ == if fault.no_entry {
            CredentialFailure::NotFound
        } else {
            CredentialFailure::StorageError(fault.text@)
        },
{
    if fault.no_entry {
        CredentialError::NotFound
    } else {
        CredentialError::StorageError(fault.text)
    }
}

/// How the outcome of opening an entry or of writing a password is
/// reported: what succeeded is handed on as it is, and a failure becomes a
/// storage error with the store's text, whatever kind of failure it is.
pub fn storage_outcome<T>(outcome: Result<T, StoreFault>) -> (r: Result<T, CredentialError>)
    ensures
        match outcome {
            Ok(value) => r == Ok::<T, CredentialError>(value),
            Err(fault) => r matches Err(e) && e@ == CredentialFailure::StorageError(fault.text@),
        },
{
    match outcome {
        Ok(value) => Ok(value),
        Err(fault) => Err(storage_failure(fault)),
    }
}

/// How the outcome of reading a password is reported: the password as it
/// is, a missing credential as `NotFound`, any other failure as a storage
/// error with the store's text.
pub fn read_outcome(outcome: Result<String, StoreFault>) -> (r: Result<String, CredentialError>)
    ensures
        match outcome {
            Ok(value) => r == Ok::<String, CredentialError>(value),
            Err(fault) => r matches Err(e) && e@ == if fault.no_entry {
                CredentialFailure::NotFound
            } else {
                CredentialFailure::StorageError(fault.text@)
            },
        },
{
    match outcome {
        Ok(value) => Ok(value),
        Err(fault) => Err(read_failure(fault)),
    }
}

/// How the outcome of a deletion is reported: a credential that was
/// already gone counts as deleted.
pub fn deletion_outcome(outcome: Result<(), StoreFault>) -> (r: Result<(), CredentialError>)
    ensures
        match outcome {
            Ok(_) => r is Ok,
            Err(fault) => if fault.no_entry {
                r is Ok
            } else {
                r matches Err(e) && e@ == CredentialFailure::StorageError(fault.text@)
            },
        },
{
    match outcome {
        Ok(_) => Ok(()),
        Err(fault) => if fault.no_entry {
            Ok(())
        } else {
            Err(CredentialError::StorageError(fault.text))
        },
    }
}

/// The entry of the application's service for a key. Whether the store
/// makes one is the store's to say; where it does not, the failure is
/// reported as `storage_outcome` reports it.
fn get_entry(key: &str) -> (r: Result<keyring::Entry, CredentialError>)
    ensures
        r matches Err(e) ==> e@ is StorageError,
{
    let outcome = match open_entry(SERVICE_NAME, key) {
        Ok(entry) => Ok(entry),
        Err(e) => Err(fault_of(e)),
    };
    storage_outcome(outcome)
}

/// Keeps `value` under `key` in the credential store. Whether the store
/// takes it is the store's to say; its answer is reported as
/// `storage_outcome` reports it, so a failure is a storage error, never
/// `NotFound`.
pub fn store_credential(key: &str, value: &str) -> (r: Result<(), CredentialError>)
    ensures
        r matches Err(e) ==> e@ is StorageError,
{
    let entry = get_entry(key)?;
    let outcome = match write_password(&entry, value) {
        Ok(_) => Ok(()),
        Err(e) => Err(fault_of(e)),
    };
    storage_outcome(outcome)
}

/// Reads the credential kept under `key`. What the store holds is the
/// store's to say; its answer is reported as `read_outcome` reports it,
/// and a failure to open the entry as `storage_outcome` does.
pub fn get_credential(key: &str) -> (r: Result<String, CredentialError>) {
    let entry = get_entry(key)?;
    let outcome = match read_password(&entry) {
        Ok(value) => Ok(value),
        Err(e) => Err(fault_of(e)),
    };
    read_outcome(outcome)
}

/// Deletes the credential kept under `key`. What the store does is the
/// store's to say; its answer is reported as `deletion_outcome` reports
/// it, so a failure is a storage error, never `NotFound`.
pub fn delete_credential(key: &str) -> (r: Result<(), CredentialError>)
    ensures
        r matches Err(e) ==> e@ is StorageError,
{
    let entry = get_entry(key)?;
    let outcome = match remove_credential(&entry) {
        Ok(_) => Ok(()),
        Err(e) => Err(fault_of(e)),
    };
    deletion_outcome(outcome)
}

/// Whether a credential could be read under `key` just now: whether
/// `get_credential` succeeds.
pub fn has_credential(key: &str) -> (r: bool) {
    get_credential(key).is_ok()
}

/// What a request for a stored key is answered with: the value, nothing
/// where none is stored, or the message of the failure.
pub fn api_key_answer(found: Result<String, CredentialError>) -> (r: Result<Option<String>, String>)
    ensures
        match found {
            Ok(value) => r == Ok::<Option<String>, String>(Some(value)),
            Err(e) => match e@ {
                CredentialFailure::NotFound => r == Ok::<Option<String>, String>(None),
                other => r matches Err(msg) && msg@ == credential_message(other),
            },
        },
{
    match found {
        Ok(value) => Ok(Some(value)),
        Err(CredentialError::NotFound) => Ok(None),
        Err(e) => Err(e.message()),
    }
}

} // verus!
