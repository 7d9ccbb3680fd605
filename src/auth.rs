//! The authentication capability a session consults once, and a dummy
//! provider that accepts every credential as the identity it names.
use vstd::prelude::*;
use crate::model::PlayerId;
use crate::session::AuthOutcome;

verus! {

/// Turns an opaque credential into a stable identity; `Ok(None)` when the
/// credential is rejected.
pub trait AuthenticationProvider {
    type AuthenticationToken;
    type UserId;
    type Error;

    /// What the provider answers for `token`.
    spec fn answers(
        &self,
        token: Self::AuthenticationToken,
        r: Result<Option<Self::UserId>, Self::Error>,
    ) -> bool;

    fn authenticate(&self, token: &Self::AuthenticationToken) -> (r: Result<
        Option<Self::UserId>,
        Self::Error,
    >)
        ensures
            self.answers(*token, r),
    ;
}

/// The error type of a provider that never fails.
#[derive(Clone, Copy, Debug, PartialEq, Eq, Structural)]
pub struct DummyError;

/// A provider that takes each credential for the identity itself.
pub struct DummyAuthenticationProvider<T> {
    _phantom: core::marker::PhantomData<T>,
}

impl<T> DummyAuthenticationProvider<T> {
    pub fn new() -> (r: DummyAuthenticationProvider<T>) {
        DummyAuthenticationProvider { _phantom: core::marker::PhantomData }
    }
}

impl<T: Clone> AuthenticationProvider for DummyAuthenticationProvider<T> {
    type AuthenticationToken = T;
    type UserId = T;
    type Error = DummyError;

    open spec fn answers(&self, token: T, r: Result<Option<T>, DummyError>) -> bool {
        r matches Ok(Some(id)) && cloned(token, id)
    }

    fn authenticate(&self, token: &T) -> (r: Result<Option<T>, DummyError>) {
        Ok(Some(token.clone()))
    }
}

impl DummyAuthenticationProvider<PlayerId> {
    /// The dummy provider's answer, as a session event: every credential is
    /// accepted as the identity it names.
    pub fn authenticate_player(&self, token: PlayerId) -> (r: AuthOutcome)
        ensures
            r == AuthOutcome::Accepted(token),
    {
        let answer = self.authenticate(&token);
        auth_outcome(&answer)
    }
}

/// What a provider's answer means to a session: an error, a rejection, or
/// an accepted identity.
pub fn auth_outcome<E>(answer: &Result<Option<PlayerId>, E>) -> (r: AuthOutcome)
    ensures
        r == (match answer {
            Err(_) => AuthOutcome::ProviderError,
            Ok(None) => AuthOutcome::Rejected,
            Ok(Some(id)) => AuthOutcome::Accepted(*id),
        }),
{
    match answer {
        Err(_) => AuthOutcome::ProviderError,
        Ok(None) => AuthOutcome::Rejected,
        Ok(Some(id)) => AuthOutcome::Accepted(*id),
    }
}

} // verus!
