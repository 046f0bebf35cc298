//! Where the Groq API key is kept: an operating-system credential store in
//! the application, an in-memory one in tests.
use vstd::prelude::*;

use crate::text::{owned, push_str, string_of};

verus! {

/// The credential-store service name.
pub const SERVICE: &'static str = "com.typr.app";

/// The credential-store user name.
pub const USER: &'static str = "groq_api_key";

/// Why the credential store failed.
#[derive(Debug, Clone, PartialEq)]
pub enum KeyringError {
    NotFound,
    AccessDenied,
    Other(String),
}

/// The message of a credential-store error.
pub open spec fn keyring_error_message(e: KeyringError) -> Seq<char> {
    match e {
        KeyringError::NotFound => "keyring entry not found"@,
        KeyringError::AccessDenied => "keyring access denied"@,
        KeyringError::Other(m) => "keyring backend failure: "@ + m@,
    }
}

impl KeyringError {
    /// The error's message (see [`keyring_error_message`]).
    pub fn to_string(&self) -> (s: String)
        ensures
            s@ == keyring_error_message(*self),
    {
        match self {
            KeyringError::NotFound => owned("keyring entry not found"),
            KeyringError::AccessDenied => owned("keyring access denied"),
            KeyringError::Other(m) => {
                let mut v: Vec<char> = Vec::new();
                push_str(&mut v, "keyring backend failure: ");
                push_str(&mut v, m.as_str());
                string_of(&v)
            },
        }
    }
}

/// A store for the one secret the application keeps.
///
/// The contracts below hold of a store that keeps the store laws: it
/// says so by giving [`KeyringBackend::keeps_store_laws`] a body that
/// holds, and describes what it holds through [`KeyringBackend::secret`].
/// Such a store reads back what it holds and accepts every write. A store
/// that gives neither body (the operating system's credential store,
/// whose answers depend on the machine) is promised nothing.
pub trait KeyringBackend {
    /// Whether this store keeps the store laws; by default it does not.
    open spec fn keeps_store_laws(&self) -> bool {
        false
    }

    /// The secret held, if any, for a store that keeps the store laws.
    open spec fn secret(&self) -> Option<Seq<char>> {
        None
    }

    /// Reads the secret.
    fn get(&self) -> (r: Result<Option<String>, KeyringError>)
        ensures
            self.keeps_store_laws() ==> (r matches Ok(v) && match v {
                Some(s) => self.secret() == Some(s@),
                None => self.secret() is None,
            }),
    ;

    /// Stores `secret`, replacing what was held.
    fn set(&mut self, secret: &str) -> (r: Result<(), KeyringError>)
        ensures
            old(self).keeps_store_laws() ==> r is Ok && final(self).keeps_store_laws()
                && final(self).secret() == Some(secret@),
    ;

    /// Removes the secret.
    fn delete(&mut self) -> (r: Result<(), KeyringError>)
        ensures
            old(self).keeps_store_laws() ==> r is Ok && final(self).keeps_store_laws()
                && final(self).secret() is None,
    ;
}

/// An in-memory store.
#[derive(Debug)]
pub struct MockBackend {
    inner: Option<String>,
}

impl MockBackend {
    /// What the store holds.
    pub closed spec fn held(&self) -> Option<Seq<char>> {
        match self.inner {
            Some(s) => Some(s@),
            None => None,
        }
    }

    /// An empty store.
    pub fn new() -> (m: Self)
        ensures
            m.held() is None,
    {
        MockBackend { inner: None }
    }

    /// A store holding `secret`.
    pub fn with_secret(secret: &str) -> (m: Self)
        ensures
            m.held() == Some(secret@),
    {
        MockBackend { inner: Some(owned(secret)) }
    }

    /// What the store holds, read without going through the trait.
    pub fn peek(&self) -> (r: Option<String>)
        ensures
            match r {
                Some(s) => self.held() == Some(s@),
                None => self.held() is None,
            },
    {
        match &self.inner {
            Some(s) => Some(owned(s.as_str())),
            None => None,
        }
    }
}

impl Default for MockBackend {
    fn default() -> (m: Self)
        ensures
            m.held() is None,
    {
        MockBackend::new()
    }
}

impl KeyringBackend for MockBackend {
    open spec fn keeps_store_laws(&self) -> bool {
        true
    }

    open spec fn secret(&self) -> Option<Seq<char>> {
        self.held()
    }

    fn get(&self) -> (r: Result<Option<String>, KeyringError>)
        ensures
            r is Ok,
    {
        Ok(self.peek())
    }

    fn set(&mut self, secret: &str) -> (r: Result<(), KeyringError>)
        ensures
            r is Ok,
    {
        self.inner = Some(owned(secret));
        Ok(())
    }

    fn delete(&mut self) -> (r: Result<(), KeyringError>)
        ensures
            r is Ok,
    {
        self.inner = None;
        Ok(())
    }
}

} // verus!
