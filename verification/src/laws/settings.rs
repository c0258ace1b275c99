//! What a configuration gives, and where its secrets come from.
use vstd::prelude::*;

use crate::config::{
    config_in_file, global_path_in, loaded, project_path_in, provider_named, ConfigModel,
    ConfigReadModel, ProviderConfigModel,
};
use crate::error::ErrorModel;
use crate::keystore::{listed_as, resolved, KeySourcesModel};
use crate::text::{has_prefix, occurs_at};

verus! {

/// Of two configurations everything is kept, the lower one first; the default is that of the
/// upper one where it has one.
pub proof fn law_merge(a: ConfigModel, b: ConfigModel)
    ensures
        a.merged(b).providers == a.providers + b.providers,
        a.merged(b).mcp == a.mcp + b.mcp,
        a.merged(b).allow == a.allow + b.allow,
        b.default_model is Some ==> a.merged(b).default_model == b.default_model,
        b.default_model is None ==> a.merged(b).default_model == a.default_model,
{
}

/// A configuration without files is empty. A file that cannot be read, or is none, fails the
/// load; what parses counts, the project over the rest.
pub proof fn law_load(
    dir: Seq<char>,
    global: ConfigReadModel,
    cwd: Seq<char>,
    project: ConfigReadModel,
)
    ensures
        loaded(Some(dir), ConfigReadModel::Missing, cwd, ConfigReadModel::Missing) == Ok::<
            ConfigModel,
            ErrorModel,
        >(ConfigModel::empty()),
        project matches ConfigReadModel::Parsed(p) ==> (global matches ConfigReadModel::Parsed(g)
            ==> loaded(Some(dir), global, cwd, project) == Ok::<ConfigModel, ErrorModel>(
            g.merged(p),
        )),
        project matches ConfigReadModel::Parsed(p) ==> loaded(
            Some(dir),
            ConfigReadModel::Missing,
            cwd,
            project,
        ) == Ok::<ConfigModel, ErrorModel>(p),
        global matches ConfigReadModel::Parsed(g) ==> loaded(
            Some(dir),
            global,
            cwd,
            ConfigReadModel::Missing,
        ) == Ok::<ConfigModel, ErrorModel>(g),
        global matches ConfigReadModel::Unreadable(e) ==> loaded(Some(dir), global, cwd, project)
            == Err::<ConfigModel, ErrorModel>(ErrorModel::Io(e)),
        global matches ConfigReadModel::Malformed(e) ==> loaded(Some(dir), global, cwd, project)
            == Err::<ConfigModel, ErrorModel>(
            ErrorModel::Config(crate::paths::joined(crate::paths::joined(dir, "ade"@), "config.toml"@)
                + ": "@ + e),
        ),
        project matches ConfigReadModel::Unreadable(e) ==> (global is Missing ==> loaded(
            Some(dir),
            global,
            cwd,
            project,
        ) == Err::<ConfigModel, ErrorModel>(ErrorModel::Io(e))),
        project matches ConfigReadModel::Malformed(e) ==> (global is Missing ==> loaded(
            Some(dir),
            global,
            cwd,
            project,
        ) == Err::<ConfigModel, ErrorModel>(
            ErrorModel::Config(crate::paths::joined(crate::paths::joined(cwd, ".ade"@), "config.toml"@)
                + ": "@ + e),
        )),
{
    crate::config::law_merge_empty(ConfigModel::empty());
    if let ConfigReadModel::Parsed(p) = project {
        crate::config::law_merge_empty(p);
    }
    if let ConfigReadModel::Parsed(g) = global {
        crate::config::law_merge_empty(g);
    }
}

/// Without a directory for it, the global file does not count.
pub proof fn law_no_global(global: ConfigReadModel, cwd: Seq<char>, project: ConfigReadModel)
    ensures
        loaded(None, global, cwd, project) == config_in_file(project_path_in(cwd), project),
        global_path_in(None) is Err,
{
    if let ConfigReadModel::Parsed(p) = project {
        crate::config::law_merge_empty(p);
    }
    crate::config::law_merge_empty(ConfigModel::empty());
}

/// The model that is asked for is used, else the default one, else the first; a name that is
/// not configured is an error, and so is a configuration without any.
pub proof fn law_selection(cfg: ConfigModel, name: Seq<char>)
    ensures
        match provider_named(cfg.providers, name) {
            Some(p) => cfg.selected(Some(name)) == Ok::<ProviderConfigModel, ErrorModel>(p),
            None => cfg.selected(Some(name)) == Err::<ProviderConfigModel, ErrorModel>(
                ErrorModel::Config("unknown model '"@ + name + "'"@),
            ),
        },
        cfg.default_model == Some(name) ==> cfg.selected(None) == cfg.selected(Some(name)),
        cfg.default_model is None && cfg.providers.len() > 0 ==> cfg.selected(None) == Ok::<
            ProviderConfigModel,
            ErrorModel,
        >(cfg.providers[0]),
        cfg.default_model is None && cfg.providers.len() == 0 ==> cfg.selected(None) == Err::<
            ProviderConfigModel,
            ErrorModel,
        >(ErrorModel::Config("no providers configured"@)),
{
}

/// A provider is found by its name exactly if one has it, and then it is the first.
pub proof fn law_provider_is_found(s: Seq<ProviderConfigModel>, name: Seq<char>)
    ensures
        match provider_named(s, name) {
            Some(p) => exists|i: int|
                0 <= i < s.len() && #[trigger] s[i] == p && p.name == name && forall|j: int|
                    0 <= j < i ==> (#[trigger] s[j]).name != name,
            None => forall|j: int| 0 <= j < s.len() ==> (#[trigger] s[j]).name != name,
        },
    decreases s.len(),
{
    if s.len() > 0 {
        if s[0].name == name {
            assert(s[0] == provider_named(s, name)->Some_0);
        } else {
            let rest = s.skip(1);
            law_provider_is_found(rest, name);
            match provider_named(rest, name) {
                Some(p) => {
                    let i = choose|i: int|
                        0 <= i < rest.len() && #[trigger] rest[i] == p && p.name == name && forall|
                            j: int,
                        |
                            0 <= j < i ==> (#[trigger] rest[j]).name != name;
                    assert(s[i + 1] == p);
                    assert forall|j: int| 0 <= j < i + 1 implies (#[trigger] s[j]).name != name by {
                        if j > 0 {
                            assert(rest[j - 1] == s[j]);
                        }
                    }
                },
                None => {
                    assert forall|j: int| 0 <= j < s.len() implies (#[trigger] s[j]).name
                        != name by {
                        if j > 0 {
                            assert(rest[j - 1] == s[j]);
                        }
                    }
                },
            }
        }
    }
}

proof fn lemma_listed<T>(s: Seq<(Seq<char>, T)>, name: Seq<char>)
    ensures
        match listed_as(s, name) {
            Some(v) => exists|i: int|
                0 <= i < s.len() && #[trigger] s[i] == (name, v) && forall|j: int|
                    0 <= j < i ==> (#[trigger] s[j]).0 != name,
            None => forall|j: int| 0 <= j < s.len() ==> (#[trigger] s[j]).0 != name,
        },
    decreases s.len(),
{
    if s.len() > 0 {
        if s[0].0 == name {
            assert(s[0] == (name, s[0].1));
        } else {
            let rest = s.skip(1);
            lemma_listed(rest, name);
            match listed_as(rest, name) {
                Some(v) => {
                    let i = choose|i: int|
                        0 <= i < rest.len() && #[trigger] rest[i] == (name, v) && forall|j: int|
                            0 <= j < i ==> (#[trigger] rest[j]).0 != name;
                    assert(s[i + 1] == (name, v));
                    assert forall|j: int| 0 <= j < i + 1 implies (#[trigger] s[j]).0 != name by {
                        if j > 0 {
                            assert(rest[j - 1] == s[j]);
                        }
                    }
                },
                None => {
                    assert forall|j: int| 0 <= j < s.len() implies (#[trigger] s[j]).0 != name by {
                        if j > 0 {
                            assert(rest[j - 1] == s[j]);
                        }
                    }
                },
            }
        }
    }
}

/// A reference to a variable stands for the value of that variable; where it is not set, the
/// error names it.
pub proof fn law_variable_is_read(name: Seq<char>, keys: KeySourcesModel)
    ensures
        match resolved("env:"@ + name, keys) {
            Ok(value) => exists|i: int|
                0 <= i < keys.vars.len() && #[trigger] keys.vars[i] == (name, value),
            Err(e) => e == ErrorModel::Key("env var '"@ + name + "' not set"@) && forall|i: int|
                0 <= i < keys.vars.len() ==> (#[trigger] keys.vars[i]).0 != name,
        },
{
    let reference = "env:"@ + name;
    assert(reference.subrange(0, "env:"@.len() as int) =~= "env:"@);
    assert(occurs_at(reference, "env:"@, 0));
    assert(reference.skip("env:"@.len() as int) =~= name);
    lemma_listed(keys.vars, name);
}

/// A reference to the keyring stands for the secret that the keyring gives for the service;
/// else the error tells the service and why there is none.
pub proof fn law_keyring_is_read(service: Seq<char>, keys: KeySourcesModel)
    ensures
        match listed_as(keys.keyring, service) {
            Some(Ok(Ok(secret))) => resolved("keyring:"@ + service, keys) == Ok::<
                Seq<char>,
                ErrorModel,
            >(secret),
            Some(Ok(Err(e))) => resolved("keyring:"@ + service, keys) == Err::<
                Seq<char>,
                ErrorModel,
            >(ErrorModel::Key("keyring read '"@ + service + "': "@ + e)),
            Some(Err(e)) => resolved("keyring:"@ + service, keys) == Err::<Seq<char>, ErrorModel>(
                ErrorModel::Key("keyring open '"@ + service + "': "@ + e),
            ),
            None => resolved("keyring:"@ + service, keys) == Err::<Seq<char>, ErrorModel>(
                ErrorModel::Key(
                    "keyring reference '"@ + service
                        + "' requires building ade with --features keyring"@,
                ),
            ),
        },
{
    reveal_strlit("env:");
    reveal_strlit("keyring:");
    let reference = "keyring:"@ + service;
    assert(reference.subrange(0, 8) =~= "keyring:"@);
    assert(occurs_at(reference, "keyring:"@, 0));
    assert(reference.skip(8) =~= service);
    if has_prefix(reference, "env:"@) {
        assert(reference.subrange(0, 4)[0] == 'k');
    }
}

/// What is no reference stands for itself.
pub proof fn law_literal_stands(text: Seq<char>, keys: KeySourcesModel)
    requires
        !has_prefix(text, "env:"@),
        !has_prefix(text, "keyring:"@),
    ensures
        resolved(text, keys) == Ok::<Seq<char>, ErrorModel>(text),
{
}

} // verus!
