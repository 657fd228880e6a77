//! Laws of the configuration.
use vstd::prelude::*;

use crate::config::{default_config, is_broken, is_load, loaded_config, merged, overridden};
use crate::config::{shown_path, tells, user_file_in, user_file_under};
use crate::config::{Config, ConfigError, ConfigFile, ConfigSources, ConfigView};
use crate::config::{EnvVars, LayerFile, LayerView};
use crate::text::{opt_text, words};

verus! {

/// A layer laid over a configuration decides each setting that it names, by itself and whatever the
/// other settings are, and leaves the others as they were. Lists are given as their words.
pub proof fn law_override_sets_what_it_names(cfg: ConfigView, layer: LayerView)
    ensures
        ({
            let over = overridden(cfg, layer);
            &&& layer.host is Some ==> over.host == layer.host->0
            &&& layer.host is None ==> over.host == cfg.host
            &&& layer.remote_root is Some ==> over.remote_root == layer.remote_root->0
            &&& layer.remote_root is None ==> over.remote_root == cfg.remote_root
            &&& layer.ssh_args is Some ==> over.ssh_args == words(layer.ssh_args->0)
            &&& layer.ssh_args is None ==> over.ssh_args == cfg.ssh_args
            &&& layer.rsync_args is Some ==> over.rsync_args == words(layer.rsync_args->0)
            &&& layer.rsync_args is None ==> over.rsync_args == cfg.rsync_args
            &&& layer.pull_artifacts is Some ==> over.pull_artifacts == layer.pull_artifacts->0
            &&& layer.pull_artifacts is None ==> over.pull_artifacts == cfg.pull_artifacts
        }),
{
}

/// The settings where nothing is set.
pub proof fn law_defaults()
    ensures
        default_config().host == "meta"@,
        default_config().remote_root == "~/rcargo-builds"@,
        default_config().ssh_args.len() == 0,
        default_config().rsync_args.len() == 0,
        !default_config().pull_artifacts,
{
}

/// Each setting is that of the environment, else that of the project file, else that of the user
/// file, else the default, whatever the other settings are.
pub proof fn law_loaded_settings(user: LayerFile, project: LayerFile, env: EnvVars)
    ensures
        ({
            let cfg = loaded_config(user, project, env.layer());
            let u = user->Parsed_0;
            let p = project->Parsed_0;
            &&& env.host is Some ==> cfg.host == env.host->0@
            &&& env.host is None && project is Parsed && p.host is Some ==> cfg.host == p.host->0@
            &&& env.host is None && !(project is Parsed && p.host is Some) && user is Parsed
                && u.host is Some ==> cfg.host == u.host->0@
            &&& env.host is None && !(project is Parsed && p.host is Some) && !(user is Parsed
                && u.host is Some) ==> cfg.host == "meta"@
            &&& env.remote_root is Some ==> cfg.remote_root == env.remote_root->0@
            &&& env.remote_root is None && project is Parsed && p.remote_root is Some
                ==> cfg.remote_root == p.remote_root->0@
            &&& env.remote_root is None && !(project is Parsed && p.remote_root is Some)
                && user is Parsed && u.remote_root is Some ==> cfg.remote_root == u.remote_root->0@
            &&& env.remote_root is None && !(project is Parsed && p.remote_root is Some) && !(
            user is Parsed && u.remote_root is Some) ==> cfg.remote_root == "~/rcargo-builds"@
            &&& env.ssh_args is Some ==> cfg.ssh_args == words(env.ssh_args->0@)
            &&& env.ssh_args is None && project is Parsed && p.ssh_args is Some ==> cfg.ssh_args
                == words(p.ssh_args->0@)
            &&& env.ssh_args is None && !(project is Parsed && p.ssh_args is Some) && user is Parsed
                && u.ssh_args is Some ==> cfg.ssh_args == words(u.ssh_args->0@)
            &&& env.ssh_args is None && !(project is Parsed && p.ssh_args is Some) && !(
            user is Parsed && u.ssh_args is Some) ==> cfg.ssh_args.len() == 0
            &&& env.rsync_args is Some ==> cfg.rsync_args == words(env.rsync_args->0@)
            &&& env.rsync_args is None && project is Parsed && p.rsync_args is Some
                ==> cfg.rsync_args == words(p.rsync_args->0@)
            &&& env.rsync_args is None && !(project is Parsed && p.rsync_args is Some)
                && user is Parsed && u.rsync_args is Some ==> cfg.rsync_args == words(
                u.rsync_args->0@,
            )
            &&& env.rsync_args is None && !(project is Parsed && p.rsync_args is Some) && !(
            user is Parsed && u.rsync_args is Some) ==> cfg.rsync_args.len() == 0
            &&& project is Parsed && p.pull_artifacts is Some ==> cfg.pull_artifacts
                == p.pull_artifacts->0
            &&& !(project is Parsed && p.pull_artifacts is Some) && user is Parsed
                && u.pull_artifacts is Some ==> cfg.pull_artifacts == u.pull_artifacts->0
            &&& !(project is Parsed && p.pull_artifacts is Some) && !(user is Parsed
                && u.pull_artifacts is Some) ==> !cfg.pull_artifacts
        }),
{
    let none = LayerView {
        host: None,
        remote_root: None,
        ssh_args: None,
        rsync_args: None,
        pull_artifacts: None,
    };
    crate::config::law_precedence(user, project, env.layer(), none);
    crate::config::law_overrides_compose(
        loaded_config(user, project, env.layer()),
        none,
        none,
    );
    assert(words(Seq::empty()) =~= Seq::empty());
}

/// The environment sets what its four variables hold, each by itself, and never whether artifacts
/// come back; the names of those that are set are noted, each once, in this order.
pub proof fn law_environment(env: EnvVars, name: Seq<char>)
    ensures
        env.layer().host == opt_text(env.host),
        env.layer().remote_root == opt_text(env.remote_root),
        env.layer().ssh_args == opt_text(env.ssh_args),
        env.layer().rsync_args == opt_text(env.rsync_args),
        env.layer().pull_artifacts is None,
        ({
            let all = seq![
                ("RCARGO_HOST"@, env.host is Some),
                ("RCARGO_REMOTE_ROOT"@, env.remote_root is Some),
                ("RCARGO_SSH_ARGS"@, env.ssh_args is Some),
                ("RCARGO_RSYNC_ARGS"@, env.rsync_args is Some),
            ];
            env.seen() == all.filter(|v: (Seq<char>, bool)| v.1).map_values(
                |v: (Seq<char>, bool)| v.0,
            )
        }),
{
    let f = |v: (Seq<char>, bool)| v.1;
    let a = ("RCARGO_HOST"@, env.host is Some);
    let b = ("RCARGO_REMOTE_ROOT"@, env.remote_root is Some);
    let c = ("RCARGO_SSH_ARGS"@, env.ssh_args is Some);
    let d = ("RCARGO_RSYNC_ARGS"@, env.rsync_args is Some);
    let all = seq![a, b, c, d];
    reveal(Seq::filter);
    reveal_with_fuel(Seq::filter, 5);
    assert(all.drop_last() =~= seq![a, b, c]);
    assert(seq![a, b, c].drop_last() =~= seq![a, b]);
    assert(seq![a, b].drop_last() =~= seq![a]);
    assert(seq![a].drop_last() =~= Seq::empty());
    assert(env.seen() =~= all.filter(f).map_values(|v: (Seq<char>, bool)| v.0));
}

/// The user file is `rcargo/config.toml` in the directory for configuration, wherever there is one.
pub proof fn law_user_file(dir: Seq<char>)
    ensures
        dir.len() > 0 && dir.last() != '/' ==> user_file_under(dir) == dir
            + "/rcargo/config.toml"@,
        dir.len() > 0 && dir.last() == '/' ==> user_file_under(dir) == dir + "rcargo/config.toml"@,
        dir.len() == 0 ==> user_file_under(dir) == "rcargo/config.toml"@,
        user_file_in(Some(dir)) == Some(user_file_under(dir)),
        user_file_in(None) is None,
{
    reveal_strlit("rcargo");
    reveal_strlit("config.toml");
    reveal_strlit("/rcargo/config.toml");
    reveal_strlit("rcargo/config.toml");
    assert((dir + seq!['/'] + "rcargo"@).last() == 'o');
    assert((dir + "rcargo"@).last() == 'o');
    if dir.len() > 0 && dir.last() != '/' {
        assert(user_file_under(dir) =~= dir + "/rcargo/config.toml"@);
    } else {
        assert(user_file_under(dir) =~= dir + "rcargo/config.toml"@);
        assert(dir.len() == 0 ==> dir + "rcargo/config.toml"@ =~= "rcargo/config.toml"@);
    }
}

/// A file is broken where it is there and cannot be read or parsed, and the error tells which file
/// and why.
pub proof fn law_broken_files_are_told(path: String, why: String, layer: ConfigFile)
    ensures
        is_broken(LayerFile::Unreadable(why)),
        is_broken(LayerFile::Malformed(why)),
        !is_broken(LayerFile::Absent),
        !is_broken(LayerFile::Parsed(layer)),
        forall|e: ConfigError|
            #[trigger] tells(e, path@, LayerFile::Unreadable(why)) ==> e.text() == "read "@ + path@
                + ": "@ + why@,
        forall|e: ConfigError|
            #[trigger] tells(e, path@, LayerFile::Malformed(why)) ==> e.text() == "parse "@ + path@
                + ": "@ + why@,
        forall|e: ConfigError|
            !(#[trigger] tells(e, path@, LayerFile::Absent)) && !tells(
                e,
                path@,
                LayerFile::Parsed(layer),
            ),
        ConfigError::RemoteRoot.text() == "remote_root must not be empty or '/'"@,
        ConfigError::Host.text() == "host must not be empty"@,
{
}

/// Of a list of layers, the last that names a setting decides it, by itself; where none does, it is
/// not set.
pub proof fn law_later_layer_wins(layers: Seq<LayerView>, top: LayerView)
    ensures
        ({
            let base = merged(layers);
            let all = merged(layers.push(top));
            &&& all.host == (if top.host is Some {
                top.host
            } else {
                base.host
            })
            &&& all.remote_root == (if top.remote_root is Some {
                top.remote_root
            } else {
                base.remote_root
            })
            &&& all.ssh_args == (if top.ssh_args is Some {
                top.ssh_args
            } else {
                base.ssh_args
            })
            &&& all.rsync_args == (if top.rsync_args is Some {
                top.rsync_args
            } else {
                base.rsync_args
            })
            &&& all.pull_artifacts == (if top.pull_artifacts is Some {
                top.pull_artifacts
            } else {
                base.pull_artifacts
            })
        }),
        ({
            let none = merged(Seq::empty());
            &&& none.host is None && none.remote_root is None && none.ssh_args is None
            &&& none.rsync_args is None && none.pull_artifacts is None
        }),
{
    assert(layers.push(top).drop_last() =~= layers);
}

/// Loading tells the truth: there is a configuration exactly where neither file is broken, a user
/// file counts only where there is a place for it, and what is noted of the sources is what was
/// read. The user file is the first to be told of where both are broken.
pub proof fn law_loading_tells_the_truth(
    out: Result<(Config, ConfigSources), ConfigError>,
    user_path: Option<String>,
    user: LayerFile,
    project: LayerFile,
    env: EnvVars,
)
    requires
        is_load(out, user_path, user, project, env),
    ensures
        ({
            let bad_user = user_path is Some && (user is Unreadable || user is Malformed);
            let bad_project = project is Unreadable || project is Malformed;
            let has_user = user_path is Some && user is Parsed;
            &&& out is Ok <==> !bad_user && !bad_project
            &&& out matches Ok((cfg, sources)) ==> {
                &&& user_path is Some ==> cfg@ == loaded_config(user, project, env.layer())
                &&& user_path is None ==> cfg@ == loaded_config(
                    LayerFile::Absent,
                    project,
                    env.layer(),
                )
                &&& sources.user_file is Some <==> has_user
                &&& has_user ==> sources.user_file == user_path
                &&& sources.project_file is Some <==> project is Parsed
                &&& project is Parsed ==> sources.project_file->0@ == "rcargo.toml"@
                &&& sources.vars() == env.seen()
            }
            &&& out matches Err(e) ==> {
                &&& bad_user && user is Unreadable ==> e.text() == "read "@ + user_path->0@ + ": "@
                    + user->Unreadable_0@
                &&& bad_user && user is Malformed ==> e.text() == "parse "@ + user_path->0@ + ": "@
                    + user->Malformed_0@
                &&& !bad_user && project is Unreadable ==> e.text() == "read "@ + "rcargo.toml"@
                    + ": "@ + project->Unreadable_0@
                &&& !bad_user && project is Malformed ==> e.text() == "parse "@ + "rcargo.toml"@
                    + ": "@ + project->Malformed_0@
            }
        }),
{
}

/// A path is shown in its canonical form wherever it has one.
pub proof fn law_path_is_shown_in_full(canonical: Option<Seq<char>>, given: Seq<char>)
    ensures
        canonical is Some ==> shown_path(canonical, given) == canonical->0,
        canonical is None ==> shown_path(canonical, given) == given,
{
}

} // verus!
