//! The credential of a provider, and what depends on it.
//!
//! Copilot takes the user's GitHub token directly: nothing is exchanged and
//! nothing expires. A token that stops working means that the user has to log in
//! again.

use crate::copilot_enterprise::{
    base_known, clear_discovered_api_base_for, forgotten, next_generation, BasesView,
    DiscoveredApiBases,
};
use crate::message::text_option;
use crate::text::{owned, same};
use vstd::prelude::*;

verus! {

/// The credential that a provider and its forks use.
pub struct Credentials {
    pub github_token: String,
    /// Counts the logins. It also moves on when a login brings the same token,
    /// since what the seat may use can have changed.
    pub credential_generation: u64,
}

/// The model of [`Credentials`].
pub struct CredentialView {
    pub token: Seq<char>,
    pub generation: u64,
}

impl View for Credentials {
    type V = CredentialView;

    open spec fn view(&self) -> CredentialView {
        CredentialView { token: self.github_token@, generation: self.credential_generation }
    }
}

/// The message where there is no credential.
pub open spec fn no_credential() -> Seq<char> {
    "GitHub Copilot credentials are no longer available. Run `jcode login --provider copilot`."@
}

/// Whether a snapshot of the credential still is the credential.
pub open spec fn is_current(now: CredentialView, token: Seq<char>, generation: u64) -> bool {
    now.token == token && now.generation == generation
}

/// The credential after a login brought `fresh`.
pub open spec fn relogged(now: CredentialView, fresh: Option<Seq<char>>) -> CredentialView {
    CredentialView {
        token: match fresh {
            Some(token) => token,
            None => seq![],
        },
        generation: next_generation(now.generation),
    }
}

/// The endpoints that are known after a login brought `fresh`: where the token
/// changed, the old token's endpoint is forgotten.
pub open spec fn bases_after_login(
    known: BasesView,
    now: CredentialView,
    fresh: Option<Seq<char>>,
) -> BasesView {
    if fresh == Some(now.token) {
        known
    } else {
        forgotten(known, now.token)
    }
}

impl Credentials {
    /// The credential with this token.
    pub fn new(github_token: String) -> (r: Credentials)
        ensures
            r@ == (CredentialView { token: github_token@, generation: 1 }),
    {
        Credentials { github_token, credential_generation: 1 }
    }

    /// The number of the current login.
    pub fn credential_generation(&self) -> (r: u64)
        ensures
            r == self@.generation,
    {
        self.credential_generation
    }

    /// Makes every snapshot of the credential outdated.
    pub fn invalidate_credential_generation(&mut self)
        ensures
            final(self)@ == (CredentialView {
                generation: next_generation(old(self)@.generation),
                ..old(self)@
            }),
    {
        self.credential_generation = self.credential_generation.wrapping_add(1);
    }

    /// Whether `candidate` is the token of the login number `generation`, and
    /// that login still counts.
    pub fn credential_is_current(&self, candidate: &str, generation: u64) -> (r: bool)
        ensures
            r == is_current(self@, candidate@, generation),
    {
        same(self.github_token.as_str(), candidate) && self.credential_generation == generation
    }

    /// Runs `apply` only while the snapshot of the credential still is the
    /// credential.
    pub fn with_current_credential<T, F: FnOnce() -> T>(
        &self,
        candidate: &str,
        generation: u64,
        apply: F,
    ) -> (r: Option<T>)
        requires
            apply.requires(()),
        ensures
            r is Some <==> is_current(self@, candidate@, generation),
            r matches Some(value) ==> apply.ensures((), value),
    {
        if self.credential_is_current(candidate, generation) {
            Some(apply())
        } else {
            None
        }
    }

    /// The token for requests, or the message that there is none.
    pub fn get_bearer_token(&self) -> (r: Result<String, String>)
        ensures
            (match r {
                Ok(token) => self@.token.len() > 0 && token@ == self@.token,
                Err(message) => self@.token.len() == 0 && message@ == no_credential(),
            }),
    {
        if self.github_token.as_str().is_empty() {
            return Err(
                owned(
                    "GitHub Copilot credentials are no longer available. Run `jcode login --provider copilot`.",
                ),
            );
        }
        Ok(self.github_token.clone())
    }

    /// Takes over the token of a new login. The endpoint of an old token is
    /// forgotten with it.
    pub fn reload_github_token(&mut self, fresh: &str, known: &mut DiscoveredApiBases)
        ensures
            final(self)@ == (CredentialView { token: fresh@, ..old(self)@ }),
            final(known)@ == bases_after_login(old(known)@, old(self)@, Some(fresh@)),
    {
        if !same(self.github_token.as_str(), fresh) {
            clear_discovered_api_base_for(known, self.github_token.as_str());
            self.github_token = owned(fresh);
        }
    }

    /// Drops the token, and the endpoint that was discovered for it.
    pub fn clear_github_token(&mut self, known: &mut DiscoveredApiBases)
        ensures
            final(self)@ == (CredentialView { token: seq![], ..old(self)@ }),
            final(known)@ == forgotten(old(known)@, old(self)@.token),
    {
        clear_discovered_api_base_for(known, self.github_token.as_str());
        self.github_token = String::new();
        assert(self@.token =~= seq![]);
    }

    /// Reloads the credential after a login or a logout. `fresh` is the token
    /// that can now be loaded; where none can, the old account is not used any
    /// further.
    pub fn reload_credentials_now(&mut self, fresh: Option<&str>, known: &mut DiscoveredApiBases)
        ensures
            final(self)@ == relogged(
                old(self)@,
                crate::copilot_enterprise::str_option(fresh),
            ),
            final(known)@ == bases_after_login(
                old(known)@,
                old(self)@,
                crate::copilot_enterprise::str_option(fresh),
            ),
    {
        self.invalidate_credential_generation();
        match fresh {
            Some(fresh) => {
                self.reload_github_token(fresh, known);
            },
            None => {
                self.clear_github_token(known);
            },
        }
    }
}

/// Whether a status says that authentication failed. GitHub also answers 403
/// where an enterprise seat is sent to the public endpoint, so only 401 does.
pub open spec fn auth_failed(status: u16) -> bool {
    status == 401
}

/// Whether a status says that authentication failed.
pub fn is_auth_error(status: u16) -> (r: bool)
    ensures
        r == auth_failed(status),
{
    status == 401
}

/// The base URL to go on with after a 403, where a new lookup of the seat came
/// to `rediscovered`: there is one only if the seat has moved.
pub open spec fn moved_base(previous: Seq<char>, rediscovered: Option<Seq<char>>) -> Option<
    Seq<char>,
> {
    match rediscovered {
        Some(base) => if base != previous {
            Some(base)
        } else {
            None
        },
        None => None,
    }
}

/// The base URL to go on with after a 403.
pub fn refresh_api_base_after_forbidden(previous_base: &str, rediscovered: Option<String>) -> (r:
    Option<String>)
    ensures
        text_option(r) == moved_base(previous_base@, text_option(rediscovered)),
{
    match rediscovered {
        Some(base) => {
            if same(base.as_str(), previous_base) {
                None
            } else {
                Some(base)
            }
        },
        None => None,
    }
}

/// How long the models of a provider may take to be refreshed after a login, in
/// nanoseconds.
pub const REFRESH_LIMIT_NANOS: u128 = 10_000_000_000;

/// How long to wait between two looks at such a refresh, in milliseconds.
pub const REFRESH_POLL_MS: u64 = 20;

/// How many milliseconds to wait for a refresh that began `elapsed_nanos` ago;
/// nothing where it is over, or has taken too long.
pub fn refresh_wait_ms(pending: bool, elapsed_nanos: u128) -> (r: Option<u64>)
    ensures
        r == (if pending && elapsed_nanos < REFRESH_LIMIT_NANOS {
            Some(REFRESH_POLL_MS)
        } else {
            None
        }),
{
    if pending && elapsed_nanos < REFRESH_LIMIT_NANOS {
        Some(REFRESH_POLL_MS)
    } else {
        None
    }
}

/// A login outdates every snapshot of the credential, even where the token stays
/// the same.
pub proof fn law_login_outdates_snapshots(now: CredentialView, fresh: Option<Seq<char>>)
    ensures
        !is_current(relogged(now, fresh), now.token, now.generation),
{
}

/// An endpoint of the old token is not used for the new one.
pub proof fn law_old_endpoint_is_forgotten(
    known: BasesView,
    now: CredentialView,
    fresh: Option<Seq<char>>,
)
    requires
        fresh != Some(now.token),
    ensures
        base_known(bases_after_login(known, now, fresh), now.token) is None,
{
}

} // verus!
