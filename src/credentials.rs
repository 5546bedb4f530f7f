//! Turning what a credential helper answered into the result of an action.
use vstd::prelude::*;

verus! {

/// What is known of the remote that credentials are for.
#[derive(Debug)]
pub struct Context {
    pub protocol: Option<String>,
    pub host: Option<String>,
    pub path: Option<Vec<u8>>,
    pub username: Option<String>,
    pub password: Option<String>,
    pub url: Option<Vec<u8>>,
}

/// What a credential helper is asked to do.
#[derive(Debug)]
pub enum Action {
    /// Find credentials for the context.
    Get(Context),
    /// Remember the credentials of an earlier helper output.
    Store(Vec<u8>),
    /// Forget the credentials of an earlier helper output.
    Erase(Vec<u8>),
}

/// A user name and its password.
#[derive(Debug)]
pub struct Identity {
    pub username: String,
    pub password: String,
}

/// The helper's raw output, kept so that the credentials can later be stored
/// or erased.
#[derive(Debug)]
pub struct NextAction {
    pub previous_output: Vec<u8>,
}

/// What a helper answered to a `Get`.
#[derive(Debug)]
pub struct InvokeOutcome {
    pub username: Option<String>,
    pub password: Option<String>,
    pub next: NextAction,
}

impl InvokeOutcome {
    /// Takes the user name and password out, if both are there; otherwise
    /// leaves both in place.
    pub fn consume_identity(&mut self) -> (r: Option<Identity>)
        ensures
            match (old(self).username, old(self).password) {
                (Some(u), Some(p)) => r == Some(Identity { username: u, password: p }) && final(self).username is None
                    && final(self).password is None,
                _ => r is None && final(self).username == old(self).username && final(self).password == old(
                    self,
                ).password,
            },
            final(self).next == old(self).next,
    {
        if self.username.is_none() || self.password.is_none() {
            return None;
        }
        let username = self.username.take().unwrap();
        let password = self.password.take().unwrap();
        Some(Identity { username, password })
    }
}

/// Credentials found by a helper, with what is needed to store or erase them
/// later.
#[derive(Debug)]
pub struct Outcome {
    pub identity: Identity,
    pub next: NextAction,
}

/// Why an action failed.
#[derive(Debug)]
pub enum Error {
    /// A `Get` found no complete identity.
    IdentityMissing { context: Context },
}

/// The result of `action` given what the helper answered: a `Get` needs a
/// user name and a password, a `Store` or an `Erase` yields nothing.
pub fn invoke_outcome_to_helper_result(outcome: Option<InvokeOutcome>, action: Action) -> (r: Result<Option<Outcome>, Error>)
    ensures
        match action {
            Action::Get(context) => match outcome {
                Some(o) => match (o.username, o.password) {
                    (Some(u), Some(p)) => r == Ok::<Option<Outcome>, Error>(
                        Some(Outcome { identity: Identity { username: u, password: p }, next: o.next }),
                    ),
                    _ => r == Err::<Option<Outcome>, Error>(Error::IdentityMissing { context }),
                },
                None => r == Err::<Option<Outcome>, Error>(Error::IdentityMissing { context }),
            },
            _ => r == Ok::<Option<Outcome>, Error>(None),
        },
{
    match action {
        Action::Get(context) => match outcome {
            None => Err(Error::IdentityMissing { context }),
            Some(mut outcome) => match outcome.consume_identity() {
                Some(identity) => Ok(Some(Outcome { identity, next: outcome.next })),
                None => Err(Error::IdentityMissing { context }),
            },
        },
        Action::Store(_) | Action::Erase(_) => Ok(None),
    }
}

} // verus!
