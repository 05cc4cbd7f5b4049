//! Which provider each live session uses.
//!
//! While a turn runs its agent is locked, also when it asks for a worker to be
//! spawned. The registry answers without that lock. It does not keep a provider
//! alive: a provider stands here by its number, and callers say which numbers
//! are alive.

use crate::keyed::{
    keys_differ, lemma_entry_in_map, lemma_key_has_entry, map_of, TextMap,
};
use crate::text::owned;
use vstd::prelude::*;

verus! {

/// The providers of the live sessions, by session.
pub struct SessionProviders {
    providers: TextMap<u64>,
}

impl View for SessionProviders {
    type V = Map<Seq<char>, u64>;

    closed spec fn view(&self) -> Map<Seq<char>, u64> {
        self.providers@
    }
}

/// The registrations whose providers are alive.
pub open spec fn living(m: Map<Seq<char>, u64>, alive: Seq<u64>) -> Map<Seq<char>, u64> {
    Map::new(
        |k: Seq<char>| m.contains_key(k) && alive.contains(m[k]),
        |k: Seq<char>| m[k],
    )
}

/// The registrations after a provider moved to another session. The old session
/// loses its registration only if it is this provider.
pub open spec fn moved(
    m: Map<Seq<char>, u64>,
    from: Seq<char>,
    to: Seq<char>,
    provider: u64,
) -> Map<Seq<char>, u64> {
    forgot(m, from, provider).insert(to, provider)
}

/// The registrations after a session gave up a provider: a registration of
/// another provider stays.
pub open spec fn forgot(m: Map<Seq<char>, u64>, session: Seq<char>, provider: u64) -> Map<
    Seq<char>,
    u64,
> {
    if m.contains_key(session) && m[session] == provider {
        m.remove(session)
    } else {
        m
    }
}

/// The provider of a session, if it is alive.
pub open spec fn provider_in(m: Map<Seq<char>, u64>, session: Seq<char>, alive: Seq<u64>) -> Option<
    u64,
> {
    if m.contains_key(session) && alive.contains(m[session]) {
        Some(m[session])
    } else {
        None
    }
}

fn is_alive(alive: &Vec<u64>, provider: u64) -> (r: bool)
    ensures
        r == alive@.contains(provider),
{
    let mut i: usize = 0;
    while i < alive.len()
        invariant
            i <= alive@.len(),
            forall|k: int| 0 <= k < i ==> alive@[k] != provider,
        decreases alive@.len() - i,
    {
        if alive[i] == provider {
            return true;
        }
        i = i + 1;
    }
    false
}

impl SessionProviders {
    /// No registrations.
    pub fn new() -> (r: SessionProviders)
        ensures
            r@ == Map::<Seq<char>, u64>::empty(),
    {
        SessionProviders { providers: TextMap::new() }
    }

    /// Drops the registrations whose providers are gone.
    fn retain(&mut self, alive: &Vec<u64>)
        ensures
            final(self)@ == living(old(self)@, alive@),
    {
        let mut kept: TextMap<u64> = TextMap::new();
        let entries = self.providers.entries();
        let mut i: usize = 0;
        while i < entries.len()
            invariant
                i <= entries@.len(),
                keys_differ(entries@),
                old(self)@ == map_of(entries@),
                forall|k: int|
                    0 <= k < i && alive@.contains((#[trigger] entries@[k]).1)
                        ==> kept@.contains_key(entries@[k].0@),
                forall|key: Seq<char>| #[trigger]
                    kept@.contains_key(key) ==> old(self)@.contains_key(key) && kept@[key] == old(
                        self,
                    )@[key] && alive@.contains(kept@[key]),
            decreases entries@.len() - i,
        {
            proof {
                lemma_entry_in_map(entries@, i as int);
            }
            if is_alive(alive, entries[i].1) {
                kept.insert(entries[i].0.clone(), entries[i].1);
            }
            i = i + 1;
        }
        proof {
            assert forall|key: Seq<char>|
                #![trigger kept@.contains_key(key)]
                old(self)@.contains_key(key) && alive@.contains(old(self)@[key]) implies
                kept@.contains_key(key) by {
                lemma_key_has_entry(entries@, key);
                let n = choose|n: int| 0 <= n < entries@.len() && (#[trigger] entries@[n]).0@ == key;
                lemma_entry_in_map(entries@, n);
                assert(alive@.contains(entries@[n].1));
            }
            assert(kept@ =~= living(old(self)@, alive@));
        }
        self.providers = kept;
    }

    /// Registers the provider that a session uses, and drops registrations whose
    /// providers are gone.
    pub fn record_session_provider(&mut self, session_id: &str, provider: u64, alive: &Vec<u64>)
        ensures
            final(self)@ == living(old(self)@, alive@).insert(session_id@, provider),
    {
        self.retain(alive);
        self.providers.insert(owned(session_id), provider);
    }

    /// The provider of a session, if it is alive.
    pub fn session_provider(&self, session_id: &str, alive: &Vec<u64>) -> (r: Option<u64>)
        ensures
            r == provider_in(self@, session_id@, alive@),
    {
        match self.providers.get(session_id) {
            Some(provider) => {
                if is_alive(alive, *provider) {
                    Some(*provider)
                } else {
                    None
                }
            },
            None => None,
        }
    }

    /// Moves a registration when an agent resumes another session.
    pub fn move_session_provider(
        &mut self,
        old_session_id: &str,
        new_session_id: &str,
        provider: u64,
    )
        ensures
            final(self)@ == moved(old(self)@, old_session_id@, new_session_id@, provider),
    {
        self.forget_session_provider(old_session_id, provider);
        self.providers.insert(owned(new_session_id), provider);
    }

    /// Drops a session's registration, if it still is of `provider`.
    pub fn forget_session_provider(&mut self, session_id: &str, provider: u64)
        ensures
            final(self)@ == forgot(old(self)@, session_id@, provider),
    {
        let registered = match self.providers.get(session_id) {
            Some(found) => *found == provider,
            None => false,
        };
        if registered {
            let _ = self.providers.remove(session_id);
        }
    }
}

/// The provider for a worker of a session: the session's own where it is alive,
/// else the template.
pub fn for_session(
    providers: &SessionProviders,
    session_id: &str,
    template: u64,
    alive: &Vec<u64>,
) -> (r: u64)
    ensures
        r == (match provider_in(providers@, session_id@, alive@) {
            Some(provider) => provider,
            None => template,
        }),
{
    match providers.session_provider(session_id, alive) {
        Some(provider) => provider,
        None => template,
    }
}

/// After a move the new session has the provider, the old one has lost it, and no
/// other session is touched.
pub proof fn law_moved_provider_has_one_session(
    m: Map<Seq<char>, u64>,
    from: Seq<char>,
    to: Seq<char>,
    other: Seq<char>,
    provider: u64,
    alive: Seq<u64>,
)
    requires
        from != to,
        other != from,
        other != to,
        alive.contains(provider),
    ensures
        provider_in(moved(m, from, to, provider), to, alive) == Some(provider),
        provider_in(moved(m, from, to, provider), from, alive) != Some(provider),
        provider_in(moved(m, from, to, provider), other, alive) == provider_in(m, other, alive),
{
}

/// Giving up a provider does not take a session's newer provider away.
pub proof fn law_newer_provider_stays(
    m: Map<Seq<char>, u64>,
    session: Seq<char>,
    newer: u64,
    older: u64,
    alive: Seq<u64>,
)
    requires
        newer != older,
        alive.contains(newer),
    ensures
        provider_in(forgot(m.insert(session, newer), session, older), session, alive) == Some(
            newer,
        ),
        provider_in(forgot(m.insert(session, newer), session, newer), session, alive) is None,
{
}

} // verus!
