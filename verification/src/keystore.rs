//! Resolve API-key references into actual secrets.
//!
//! A reference is one of:
//! - `env:VAR_NAME`: read from an environment variable
//! - `keyring:SERVICE`: read from the OS keyring (without one built in, a clear error
//!   is returned)
//! - anything else: treated as a literal secret
//!
//! Resolved secrets are never persisted to session history or logs.
use vstd::prelude::*;

use crate::error::{outcome, Error, ErrorModel};
use crate::text::{
    after_prefix, cat3, cat4, has_prefix, occurs_at, opt_view, pair_views, same, strip_prefix,
};

verus! {

/// What came of the keyring for a service: it could not be opened, or it could not be
/// read, each with the message of the failure, or it gave a secret.
pub type KeyringRead = Result<Result<String, String>, String>;

/// Where references are resolved: the environment, and what came of the keyring for each
/// service that it was asked for. Without a keyring built in there is nothing of it.
pub struct KeySources {
    pub vars: Vec<(String, String)>,
    pub keyring: Vec<(String, KeyringRead)>,
}

/// The model of [`KeySources`].
#[verifier::ext_equal]
pub struct KeySourcesModel {
    pub vars: Seq<(Seq<char>, Seq<char>)>,
    pub keyring: Seq<(Seq<char>, Result<Result<Seq<char>, Seq<char>>, Seq<char>>)>,
}

/// The model of a [`KeyringRead`].
pub open spec fn read_model(r: KeyringRead) -> Result<Result<Seq<char>, Seq<char>>, Seq<char>> {
    match r {
        Ok(Ok(secret)) => Ok(Ok(secret@)),
        Ok(Err(e)) => Ok(Err(e@)),
        Err(e) => Err(e@),
    }
}

impl View for KeySources {
    type V = KeySourcesModel;

    open spec fn view(&self) -> KeySourcesModel {
        KeySourcesModel {
            vars: pair_views(self.vars@),
            keyring: Seq::new(
                self.keyring@.len(),
                |i: int| (self.keyring@[i].0@, read_model(self.keyring@[i].1)),
            ),
        }
    }
}

/// The first value that is listed under a name.
pub open spec fn listed_as<T>(s: Seq<(Seq<char>, T)>, name: Seq<char>) -> Option<T>
    decreases s.len(),
{
    if s.len() == 0 {
        None
    } else if s[0].0 == name {
        Some(s[0].1)
    } else {
        listed_as(s.skip(1), name)
    }
}

/// The secret that a reference stands for.
pub open spec fn resolved(reference: Seq<char>, keys: KeySourcesModel) -> Result<
    Seq<char>,
    ErrorModel,
> {
    match after_prefix(reference, "env:"@) {
        Some(name) => match listed_as(keys.vars, name) {
            Some(value) => Ok(value),
            None => Err(ErrorModel::Key("env var '"@ + name + "' not set"@)),
        },
        None => match after_prefix(reference, "keyring:"@) {
            Some(service) => keyring_resolved(service, listed_as(keys.keyring, service)),
            None => Ok(reference),
        },
    }
}

/// The secret of a service, from what came of the keyring for it; nothing came where no
/// keyring is built in.
pub open spec fn keyring_resolved(
    service: Seq<char>,
    opened: Option<Result<Result<Seq<char>, Seq<char>>, Seq<char>>>,
) -> Result<Seq<char>, ErrorModel> {
    match opened {
        Some(Ok(Ok(secret))) => Ok(secret),
        Some(Ok(Err(e))) => Err(ErrorModel::Key("keyring read '"@ + service + "': "@ + e)),
        Some(Err(e)) => Err(ErrorModel::Key("keyring open '"@ + service + "': "@ + e)),
        None => Err(
            ErrorModel::Key(
                "keyring reference '"@ + service
                    + "' requires building ade with --features keyring"@,
            ),
        ),
    }
}

fn lookup(vars: &Vec<(String, String)>, name: &str) -> (r: Option<String>)
    ensures
        opt_view(r) == listed_as(pair_views(vars@), name@),
{
    let ghost all = pair_views(vars@);
    let mut i: usize = 0;
    assert(all.skip(0) =~= all);
    while i < vars.len()
        invariant
            all == pair_views(vars@),
            i <= vars@.len(),
            listed_as(all, name@) == listed_as(all.skip(i as int), name@),
        decreases vars@.len() - i,
    {
        assert(all.skip(i as int)[0] == all[i as int]);
        assert(all.skip(i as int).skip(1) =~= all.skip(i + 1));
        if same(vars[i].0.as_str(), name) {
            return Some(vars[i].1.clone());
        }
        i += 1;
    }
    None
}

impl KeySources {
    /// Nothing but the environment.
    pub fn of_vars(vars: Vec<(String, String)>) -> (r: KeySources)
        ensures
            r@ == (KeySourcesModel { vars: pair_views(vars@), keyring: Seq::empty() }),
    {
        let r = KeySources { vars, keyring: Vec::new() };
        assert(r@.keyring =~= Seq::empty());
        r
    }

    fn keyring_read(&self, service: &str) -> (r: Option<&KeyringRead>)
        ensures
            match r {
                Some(read) => listed_as(self@.keyring, service@) == Some(read_model(*read)),
                None => listed_as(self@.keyring, service@) is None,
            },
    {
        let ghost all = self@.keyring;
        let mut i: usize = 0;
        assert(all.skip(0) =~= all);
        while i < self.keyring.len()
            invariant
                all == self@.keyring,
                i <= self.keyring@.len(),
                listed_as(all, service@) == listed_as(all.skip(i as int), service@),
            decreases self.keyring@.len() - i,
        {
            assert(all.skip(i as int)[0] == all[i as int]);
            assert(all.skip(i as int).skip(1) =~= all.skip(i + 1));
            if same(self.keyring[i].0.as_str(), service) {
                return Some(&self.keyring[i].1);
            }
            i += 1;
        }
        None
    }
}

/// Resolve a key reference to its secret value.
pub fn resolve(reference: &str, keys: &KeySources) -> (r: Result<String, Error>)
    ensures
        outcome(r) == resolved(reference@, keys@),
{
    if let Some(name) = strip_prefix(reference, "env:") {
        return match lookup(&keys.vars, name.as_str()) {
            Some(value) => Ok(value),
            None => Err(Error::Key(cat3("env var '", name.as_str(), "' not set"))),
        };
    }
    if let Some(service) = strip_prefix(reference, "keyring:") {
        return resolve_keyring(service.as_str(), keys.keyring_read(service.as_str()));
    }
    Ok(reference.to_owned())
}

/// The secret of a service, from what came of the keyring for it.
pub fn keyring_secret(service: &str, opened: &KeyringRead) -> (r: Result<String, Error>)
    ensures
        outcome(r) == keyring_resolved(service@, Some(read_model(*opened))),
{
    match opened {
        Ok(Ok(secret)) => Ok(secret.clone()),
        Ok(Err(e)) => Err(Error::Key(cat4("keyring read '", service, "': ", e.as_str()))),
        Err(e) => Err(Error::Key(cat4("keyring open '", service, "': ", e.as_str()))),
    }
}

/// The secret of a service in the keyring. Where no keyring is built in, the error says
/// so.
pub fn resolve_keyring(service: &str, opened: Option<&KeyringRead>) -> (r: Result<String, Error>)
    ensures
        outcome(r) == keyring_resolved(
            service@,
            match opened {
                Some(read) => Some(read_model(*read)),
                None => None,
            },
        ),
{
    match opened {
        Some(opened) => keyring_secret(service, opened),
        None => Err(
            Error::Key(
                cat3(
                    "keyring reference '",
                    service,
                    "' requires building ade with --features keyring",
                ),
            ),
        ),
    }
}

/// The secrets that references stand for, under their names: the first reference
/// that cannot be resolved is the error.
pub open spec fn resolved_all(
    entries: Seq<(Seq<char>, Seq<char>)>,
    keys: KeySourcesModel,
) -> Result<Seq<(Seq<char>, Seq<char>)>, ErrorModel>
    decreases entries.len(),
{
    if entries.len() == 0 {
        Ok(Seq::empty())
    } else {
        match resolved_all(entries.drop_last(), keys) {
            Ok(done) => match resolved(entries.last().1, keys) {
                Ok(value) => Ok(done.push((entries.last().0, value))),
                Err(e) => Err(e),
            },
            Err(e) => Err(e),
        }
    }
}

/// Resolve a list of named references, in order.
pub fn resolve_all(entries: &Vec<(String, String)>, keys: &KeySources) -> (r: Result<
    Vec<(String, String)>,
    Error,
>)
    ensures
        match r {
            Ok(v) => resolved_all(pair_views(entries@), keys@) is Ok && pair_views(v@)
                == resolved_all(pair_views(entries@), keys@)->Ok_0,
            Err(e) => resolved_all(pair_views(entries@), keys@) is Err && e@
                == resolved_all(pair_views(entries@), keys@)->Err_0,
        },
{
    let ghost all = pair_views(entries@);
    let mut out: Vec<(String, String)> = Vec::new();
    let mut i: usize = 0;
    assert(all.take(0) =~= Seq::empty());
    assert(pair_views(out@) =~= Seq::empty());
    while i < entries.len()
        invariant
            all == pair_views(entries@),
            i <= entries@.len(),
            resolved_all(all.take(i as int), keys@) is Ok,
            resolved_all(all.take(i as int), keys@)->Ok_0 == pair_views(out@),
        decreases entries@.len() - i,
    {
        let ghost done = pair_views(out@);
        assert(all.take(i + 1).drop_last() =~= all.take(i as int));
        assert(all.take(i + 1).last() == all[i as int]);
        match resolve(entries[i].1.as_str(), keys) {
            Ok(value) => {
                out.push((entries[i].0.clone(), value));
                assert(pair_views(out@) =~= done.push((all[i as int].0, value@)));
            },
            Err(e) => {
                proof {
                    lemma_error_stays(all, keys@, i + 1);
                }
                return Err(e);
            },
        }
        i += 1;
    }
    assert(all.take(i as int) =~= all);
    Ok(out)
}

proof fn lemma_error_stays(
    entries: Seq<(Seq<char>, Seq<char>)>,
    keys: KeySourcesModel,
    n: int,
)
    requires
        0 <= n <= entries.len(),
        resolved_all(entries.take(n), keys) is Err,
    ensures
        resolved_all(entries, keys) == resolved_all(entries.take(n), keys),
    decreases entries.len() - n,
{
    if n == entries.len() {
        assert(entries.take(n) =~= entries);
    } else {
        assert(entries.take(n + 1).drop_last() =~= entries.take(n));
        lemma_error_stays(entries, keys, n + 1);
    }
}

/// A reference without a scheme is its own secret, whatever the environment and the
/// keyring.
pub proof fn law_literal(reference: Seq<char>, keys: KeySourcesModel)
    requires
        !has_prefix(reference, "env:"@),
        !has_prefix(reference, "keyring:"@),
    ensures
        resolved(reference, keys) == Ok::<Seq<char>, ErrorModel>(reference),
{
}

/// A variable that is set is found under its reference, and one that is not set is
/// an error: no reference to a variable ever stands for itself.
pub proof fn law_variable(name: Seq<char>, keys: KeySourcesModel)
    ensures
        match listed_as(keys.vars, name) {
            Some(value) => resolved("env:"@ + name, keys) == Ok::<Seq<char>, ErrorModel>(value),
            None => resolved("env:"@ + name, keys) is Err,
        },
{
    let reference = "env:"@ + name;
    assert(reference.subrange(0, "env:"@.len() as int) =~= "env:"@);
    assert(occurs_at(reference, "env:"@, 0));
    assert(reference.skip("env:"@.len() as int) =~= name);
}

/// A secret that the keyring gave is found under the reference to its service; in any
/// other case the reference is an error.
pub proof fn law_keyring(service: Seq<char>, keys: KeySourcesModel)
    ensures
        match listed_as(keys.keyring, service) {
            Some(Ok(Ok(secret))) => resolved("keyring:"@ + service, keys) == Ok::<
                Seq<char>,
                ErrorModel,
            >(secret),
            _ => resolved("keyring:"@ + service, keys) is Err,
        },
{
    let reference = "keyring:"@ + service;
    reveal_strlit("env:");
    reveal_strlit("keyring:");
    assert(reference.subrange(0, "keyring:"@.len() as int) =~= "keyring:"@);
    assert(occurs_at(reference, "keyring:"@, 0));
    assert(reference.skip("keyring:"@.len() as int) =~= service);
    assert(!has_prefix(reference, "env:"@)) by {
        assert(reference.subrange(0, 4)[0] == 'k');
    }
}

} // verus!
