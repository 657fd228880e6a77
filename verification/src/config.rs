//! Layered configuration: command line flag, then environment variable, then `./rcargo.toml`,
//! then `~/.config/rcargo/config.toml`, then the defaults.
//!
//! The caller reads the files and the environment and hands them to [`Config::load`]; what the
//! user set on the command line goes on top with [`Config::apply_overrides`].
use vstd::prelude::*;

use crate::text::{blank, copy_list, copy_opt, join_path, same_text, split_words};
use crate::text::{is_blank, opt_text, path_under, texts, words};

verus! {

/// Effective configuration after all layers have been merged.
#[derive(Debug, PartialEq, Eq)]
pub struct Config {
    /// SSH destination (`user@host` or an alias of `~/.ssh/config`).
    pub host: String,
    /// Directory on the remote host that holds one tree per project.
    pub remote_root: String,
    /// Extra arguments for `ssh`.
    pub ssh_args: Vec<String>,
    /// Extra arguments for `rsync`.
    pub rsync_args: Vec<String>,
    /// Whether the artifacts `target/release/*` and `target/*/release/*` are copied back to the local
    /// `target/` after a build that succeeds.
    pub pull_artifacts: bool,
}

/// What a [`Config`] holds.
#[verifier::ext_equal]
pub struct ConfigView {
    pub host: Seq<char>,
    pub remote_root: Seq<char>,
    pub ssh_args: Seq<Seq<char>>,
    pub rsync_args: Seq<Seq<char>>,
    pub pull_artifacts: bool,
}

impl View for Config {
    type V = ConfigView;

    open spec fn view(&self) -> ConfigView {
        ConfigView {
            host: self.host@,
            remote_root: self.remote_root@,
            ssh_args: texts(self.ssh_args@),
            rsync_args: texts(self.rsync_args@),
            pull_artifacts: self.pull_artifacts,
        }
    }
}

/// The configuration where nothing is set.
pub open spec fn default_config() -> ConfigView {
    ConfigView {
        host: "meta"@,
        remote_root: "~/rcargo-builds"@,
        ssh_args: Seq::empty(),
        rsync_args: Seq::empty(),
        pull_artifacts: false,
    }
}

impl Default for Config {
    fn default() -> (cfg: Self)
        ensures
            cfg@ == default_config(),
    {
        let cfg = Config {
            host: "meta".to_owned(),
            remote_root: "~/rcargo-builds".to_owned(),
            ssh_args: Vec::new(),
            rsync_args: Vec::new(),
            pull_artifacts: false,
        };
        assert(cfg@ =~= default_config());
        cfg
    }
}

impl Clone for Config {
    fn clone(&self) -> (cfg: Self)
        ensures
            cfg@ == self@,
    {
        Config {
            host: self.host.clone(),
            remote_root: self.remote_root.clone(),
            ssh_args: copy_list(self.ssh_args.as_slice()),
            rsync_args: copy_list(self.rsync_args.as_slice()),
            pull_artifacts: self.pull_artifacts,
        }
    }
}

/// One layer of the configuration. A field that is `None` is not set by this layer.
#[derive(Debug, PartialEq, Eq)]
pub struct ConfigFile {
    pub host: Option<String>,
    pub remote_root: Option<String>,
    pub ssh_args: Option<String>,
    pub rsync_args: Option<String>,
    pub pull_artifacts: Option<bool>,
}

/// What a [`ConfigFile`] holds.
#[verifier::ext_equal]
pub struct LayerView {
    pub host: Option<Seq<char>>,
    pub remote_root: Option<Seq<char>>,
    pub ssh_args: Option<Seq<char>>,
    pub rsync_args: Option<Seq<char>>,
    pub pull_artifacts: Option<bool>,
}

impl View for ConfigFile {
    type V = LayerView;

    open spec fn view(&self) -> LayerView {
        LayerView {
            host: opt_text(self.host),
            remote_root: opt_text(self.remote_root),
            ssh_args: opt_text(self.ssh_args),
            rsync_args: opt_text(self.rsync_args),
            pull_artifacts: self.pull_artifacts,
        }
    }
}

/// The layer that sets nothing.
pub open spec fn unset_layer() -> LayerView {
    LayerView {
        host: None,
        remote_root: None,
        ssh_args: None,
        rsync_args: None,
        pull_artifacts: None,
    }
}

impl Default for ConfigFile {
    fn default() -> (layer: Self)
        ensures
            layer@ == unset_layer(),
    {
        ConfigFile {
            host: None,
            remote_root: None,
            ssh_args: None,
            rsync_args: None,
            pull_artifacts: None,
        }
    }
}

impl Clone for ConfigFile {
    fn clone(&self) -> (layer: Self)
        ensures
            layer == *self,
    {
        ConfigFile {
            host: copy_opt(&self.host),
            remote_root: copy_opt(&self.remote_root),
            ssh_args: copy_opt(&self.ssh_args),
            rsync_args: copy_opt(&self.rsync_args),
            pull_artifacts: self.pull_artifacts,
        }
    }
}

/// Where the data of each layer came from.
#[derive(Debug, Clone)]
pub struct ConfigSources {
    /// The user file, where it was read.
    pub user_file: Option<String>,
    /// The project file, where it was read.
    pub project_file: Option<String>,
    /// The environment variables that were set.
    pub env_vars_seen: Vec<&'static str>,
}

impl ConfigSources {
    /// The names of the environment variables that were set.
    pub open spec fn vars(&self) -> Seq<Seq<char>> {
        Seq::new(self.env_vars_seen@.len(), |i: int| self.env_vars_seen@[i]@)
    }
}

impl Default for ConfigSources {
    fn default() -> (sources: Self)
        ensures
            sources.user_file is None,
            sources.project_file is None,
            sources.vars() == Seq::<Seq<char>>::empty(),
    {
        let sources = ConfigSources {
            user_file: None,
            project_file: None,
            env_vars_seen: Vec::new(),
        };
        assert(sources.vars() =~= Seq::<Seq<char>>::empty());
        sources
    }
}

/// The values of the environment variables that set the configuration.
#[derive(Debug, PartialEq, Eq)]
pub struct EnvVars {
    /// `RCARGO_HOST`
    pub host: Option<String>,
    /// `RCARGO_REMOTE_ROOT`
    pub remote_root: Option<String>,
    /// `RCARGO_SSH_ARGS`
    pub ssh_args: Option<String>,
    /// `RCARGO_RSYNC_ARGS`
    pub rsync_args: Option<String>,
}

impl EnvVars {
    /// The layer that the environment makes.
    pub open spec fn layer(&self) -> LayerView {
        LayerView {
            host: opt_text(self.host),
            remote_root: opt_text(self.remote_root),
            ssh_args: opt_text(self.ssh_args),
            rsync_args: opt_text(self.rsync_args),
            pull_artifacts: None,
        }
    }

    /// The names of the variables that are set.
    pub open spec fn seen(&self) -> Seq<Seq<char>> {
        seen_if(self.host is Some, "RCARGO_HOST"@) + seen_if(
            self.remote_root is Some,
            "RCARGO_REMOTE_ROOT"@,
        ) + seen_if(self.ssh_args is Some, "RCARGO_SSH_ARGS"@) + seen_if(
            self.rsync_args is Some,
            "RCARGO_RSYNC_ARGS"@,
        )
    }
}

/// The list of `name` alone, or nothing.
pub open spec fn seen_if(seen: bool, name: Seq<char>) -> Seq<Seq<char>> {
    if seen {
        seq![name]
    } else {
        Seq::empty()
    }
}

/// What became of a configuration file.
#[derive(Debug, PartialEq, Eq)]
pub enum LayerFile {
    /// There is no such file.
    Absent,
    /// It could not be read, for this reason.
    Unreadable(String),
    /// It is no valid configuration, for this reason.
    Malformed(String),
    /// It holds this layer.
    Parsed(ConfigFile),
}

/// Why there is no usable configuration.
#[derive(Debug, PartialEq, Eq)]
pub enum ConfigError {
    /// A configuration file could not be read.
    Read { path: String, cause: String },
    /// A configuration file could not be parsed.
    Parse { path: String, cause: String },
    /// The remote root is blank or `/`.
    RemoteRoot,
    /// The host is blank.
    Host,
}

impl ConfigError {
    /// The text of the error.
    pub open spec fn text(&self) -> Seq<char> {
        match self {
            ConfigError::Read { path, cause } => "read "@ + path@ + ": "@ + cause@,
            ConfigError::Parse { path, cause } => "parse "@ + path@ + ": "@ + cause@,
            ConfigError::RemoteRoot => "remote_root must not be empty or '/'"@,
            ConfigError::Host => "host must not be empty"@,
        }
    }

    /// The text of the error, for the user.
    pub fn message(&self) -> (out: String)
        ensures
            out@ == self.text(),
    {
        match self {
            ConfigError::Read { path, cause } => {
                let mut out = "read ".to_owned();
                out.append(path.as_str());
                out.append(": ");
                out.append(cause.as_str());
                out
            },
            ConfigError::Parse { path, cause } => {
                let mut out = "parse ".to_owned();
                out.append(path.as_str());
                out.append(": ");
                out.append(cause.as_str());
                out
            },
            ConfigError::RemoteRoot => "remote_root must not be empty or '/'".to_owned(),
            ConfigError::Host => "host must not be empty".to_owned(),
        }
    }
}

/// `top` where it is set, else `base`.
pub open spec fn either<T>(top: Option<T>, base: Option<T>) -> Option<T> {
    if top is Some {
        top
    } else {
        base
    }
}

/// The layer `top` laid over the layer `base`.
pub open spec fn laid_over(top: LayerView, base: LayerView) -> LayerView {
    LayerView {
        host: either(top.host, base.host),
        remote_root: either(top.remote_root, base.remote_root),
        ssh_args: either(top.ssh_args, base.ssh_args),
        rsync_args: either(top.rsync_args, base.rsync_args),
        pull_artifacts: either(top.pull_artifacts, base.pull_artifacts),
    }
}

/// The layers of a list, each laid over those before it.
pub open spec fn merged(layers: Seq<LayerView>) -> LayerView
    decreases layers.len(),
{
    if layers.len() == 0 {
        unset_layer()
    } else {
        laid_over(layers.last(), merged(layers.drop_last()))
    }
}

/// What each layer of a list holds.
pub open spec fn layer_views(layers: Seq<ConfigFile>) -> Seq<LayerView> {
    Seq::new(layers.len(), |i: int| layers[i]@)
}

/// `value` where it is set, else `default`.
pub open spec fn or_default<T>(value: Option<T>, default: T) -> T {
    match value {
        Some(v) => v,
        None => default,
    }
}

/// The words of `value` where it is set, else `default`.
pub open spec fn words_or(value: Option<Seq<char>>, default: Seq<Seq<char>>) -> Seq<Seq<char>> {
    match value {
        Some(v) => words(v),
        None => default,
    }
}

/// The configuration `cfg` with what `layer` sets in place of its own.
pub open spec fn overridden(cfg: ConfigView, layer: LayerView) -> ConfigView {
    ConfigView {
        host: or_default(layer.host, cfg.host),
        remote_root: or_default(layer.remote_root, cfg.remote_root),
        ssh_args: words_or(layer.ssh_args, cfg.ssh_args),
        rsync_args: words_or(layer.rsync_args, cfg.rsync_args),
        pull_artifacts: or_default(layer.pull_artifacts, cfg.pull_artifacts),
    }
}

/// The layer that a file makes, where it makes one.
pub open spec fn file_layers(file: LayerFile) -> Seq<LayerView> {
    match file {
        LayerFile::Parsed(layer) => seq![layer@],
        _ => Seq::empty(),
    }
}

/// The configuration that the files and the environment make: each laid over the one before, and
/// over the defaults.
pub open spec fn loaded_config(user: LayerFile, project: LayerFile, env: LayerView) -> ConfigView {
    overridden(default_config(), merged(file_layers(user) + file_layers(project) + seq![env]))
}

/// Whether a file is there and yet gives no layer.
pub open spec fn is_broken(file: LayerFile) -> bool {
    file is Unreadable || file is Malformed
}

/// Whether `err` tells what is wrong with the file at `path`.
pub open spec fn tells(err: ConfigError, path: Seq<char>, file: LayerFile) -> bool {
    match file {
        LayerFile::Unreadable(why) => err matches ConfigError::Read { path: p, cause } && p@ == path
            && cause == why,
        LayerFile::Malformed(why) => err matches ConfigError::Parse { path: p, cause } && p@ == path
            && cause == why,
        _ => false,
    }
}

/// Whether `out` is what these files and this environment come to.
pub open spec fn is_load(
    out: Result<(Config, ConfigSources), ConfigError>,
    user_path: Option<String>,
    user: LayerFile,
    project: LayerFile,
    env: EnvVars,
) -> bool {
    let user_file = if user_path is Some {
        user
    } else {
        LayerFile::Absent
    };
    match out {
        Ok((cfg, sources)) => {
            &&& !is_broken(user_file)
            &&& !is_broken(project)
            &&& cfg@ == loaded_config(user_file, project, env.layer())
            &&& sources.user_file == (if user_file is Parsed {
                user_path
            } else {
                None
            })
            &&& opt_text(sources.project_file) == (if project is Parsed {
                Some("rcargo.toml"@)
            } else {
                None
            })
            &&& sources.vars() == env.seen()
        },
        Err(e) => if is_broken(user_file) {
            tells(e, user_path->0@, user_file)
        } else {
            tells(e, "rcargo.toml"@, project)
        },
    }
}

/// A path as it is shown.
pub open spec fn shown_path(canonical: Option<Seq<char>>, given: Seq<char>) -> Seq<char> {
    or_default(canonical, given)
}

impl Config {
    /// Merge what was read of the user file at `user_path`, of the project file and of the
    /// environment, each over the one before, and fill in the defaults. With no `user_path` there
    /// is no user file. A file that is there and cannot be used is an error, the user file first.
    pub fn load(
        user_path: Option<String>,
        user: LayerFile,
        project: LayerFile,
        env: &EnvVars,
    ) -> (out: Result<(Config, ConfigSources), ConfigError>)
        ensures
            is_load(out, user_path, user, project, *env),
    {
        let ghost user_file = if user_path is Some {
            user
        } else {
            LayerFile::Absent
        };
        let mut layers: Vec<ConfigFile> = Vec::new();
        let mut sources = ConfigSources::default();
        if let Some(path) = user_path {
            match user {
                LayerFile::Absent => {},
                LayerFile::Unreadable(cause) => {
                    return Err(ConfigError::Read { path: path, cause: cause });
                },
                LayerFile::Malformed(cause) => {
                    return Err(ConfigError::Parse { path: path, cause: cause });
                },
                LayerFile::Parsed(layer) => {
                    layers.push(layer);
                    sources.user_file = Some(path);
                },
            }
        }
        let ghost user_layers = layer_views(layers@);
        assert(user_layers =~= file_layers(user_file));
        match project {
            LayerFile::Absent => {},
            LayerFile::Unreadable(cause) => {
                return Err(ConfigError::Read { path: "rcargo.toml".to_owned(), cause: cause });
            },
            LayerFile::Malformed(cause) => {
                return Err(ConfigError::Parse { path: "rcargo.toml".to_owned(), cause: cause });
            },
            LayerFile::Parsed(layer) => {
                layers.push(layer);
                sources.project_file = Some("rcargo.toml".to_owned());
            },
        }
        assert(layer_views(layers@) =~= user_layers + file_layers(project));
        let ghost files = layer_views(layers@);
        layers.push(env_layer(env, &mut sources));
        assert(layer_views(layers@) =~= files + seq![env.layer()]);
        assert(sources.vars() =~= env.seen());
        let merged_layer = merge_layers(layers.as_slice());
        Ok((apply_defaults(merged_layer), sources))
    }

    /// Put in what `overrides` sets.
    pub fn apply_overrides(&mut self, overrides: ConfigFile)
        ensures
            final(self)@ == overridden(old(self)@, overrides@),
    {
        if let Some(host) = overrides.host {
            self.host = host;
        }
        if let Some(root) = overrides.remote_root {
            self.remote_root = root;
        }
        if let Some(s) = overrides.ssh_args {
            self.ssh_args = split_args(s.as_str());
        }
        if let Some(s) = overrides.rsync_args {
            self.rsync_args = split_args(s.as_str());
        }
        if let Some(b) = overrides.pull_artifacts {
            self.pull_artifacts = b;
        }
    }
}

/// The layer that the environment makes; the variables that are set are noted in `sources`.
pub fn env_layer(env: &EnvVars, sources: &mut ConfigSources) -> (layer: ConfigFile)
    ensures
        layer@ == env.layer(),
        final(sources).user_file == old(sources).user_file,
        final(sources).project_file == old(sources).project_file,
        final(sources).vars() == old(sources).vars() + env.seen(),
{
    let ghost before = sources.vars();
    if env.host.is_some() {
        sources.env_vars_seen.push("RCARGO_HOST");
    }
    assert(sources.vars() =~= before + seen_if(env.host is Some, "RCARGO_HOST"@));
    let ghost before = sources.vars();
    if env.remote_root.is_some() {
        sources.env_vars_seen.push("RCARGO_REMOTE_ROOT");
    }
    assert(sources.vars() =~= before + seen_if(env.remote_root is Some, "RCARGO_REMOTE_ROOT"@));
    let ghost before = sources.vars();
    if env.ssh_args.is_some() {
        sources.env_vars_seen.push("RCARGO_SSH_ARGS");
    }
    assert(sources.vars() =~= before + seen_if(env.ssh_args is Some, "RCARGO_SSH_ARGS"@));
    let ghost before = sources.vars();
    if env.rsync_args.is_some() {
        sources.env_vars_seen.push("RCARGO_RSYNC_ARGS");
    }
    assert(sources.vars() =~= before + seen_if(env.rsync_args is Some, "RCARGO_RSYNC_ARGS"@));
    assert(sources.vars() =~= old(sources).vars() + env.seen());
    ConfigFile {
        host: copy_opt(&env.host),
        remote_root: copy_opt(&env.remote_root),
        ssh_args: copy_opt(&env.ssh_args),
        rsync_args: copy_opt(&env.rsync_args),
        pull_artifacts: None,
    }
}

/// Merge the layers; a later one wins, field by field.
pub fn merge_layers(layers: &[ConfigFile]) -> (out: ConfigFile)
    ensures
        out@ == merged(layer_views(layers@)),
{
    let mut out = ConfigFile::default();
    let mut i: usize = 0;
    assert(layer_views(layers@).take(0) =~= Seq::empty());
    while i < layers.len()
        invariant
            i <= layers.len(),
            out@ == merged(layer_views(layers@).take(i as int)),
        decreases layers.len() - i,
    {
        let layer = &layers[i];
        let ghost views = layer_views(layers@);
        assert(views.take(i + 1).drop_last() =~= views.take(i as int));
        if layer.host.is_some() {
            out.host = copy_opt(&layer.host);
        }
        if layer.remote_root.is_some() {
            out.remote_root = copy_opt(&layer.remote_root);
        }
        if layer.ssh_args.is_some() {
            out.ssh_args = copy_opt(&layer.ssh_args);
        }
        if layer.rsync_args.is_some() {
            out.rsync_args = copy_opt(&layer.rsync_args);
        }
        if layer.pull_artifacts.is_some() {
            out.pull_artifacts = layer.pull_artifacts;
        }
        i += 1;
    }
    assert(layer_views(layers@).take(i as int) =~= layer_views(layers@));
    out
}

/// The configuration that a merged layer makes over the defaults.
pub fn apply_defaults(file: ConfigFile) -> (cfg: Config)
    ensures
        cfg@ == overridden(default_config(), file@),
{
    let mut cfg = Config::default();
    cfg.apply_overrides(file);
    cfg
}

/// The words of `s`.
pub fn split_args(s: &str) -> (out: Vec<String>)
    ensures
        texts(out@) == words(s@),
{
    split_words(s)
}

/// The configuration that these layers make over the defaults; a later layer wins.
pub fn merge_for_test(layers: &[ConfigFile]) -> (cfg: Config)
    ensures
        cfg@ == overridden(default_config(), merged(layer_views(layers@))),
{
    apply_defaults(merge_layers(layers))
}

/// `dirs::config_dir` gives the directory for the configuration of the user's programs, or none.
/// It depends on the machine and on the environment, so nothing is said of it. It is given as the
/// text to show; a part of it that is not Unicode is replaced there.
#[verifier::external_body]
fn config_dir() -> (dir: Option<String>) {
    dirs::config_dir().map(|d| d.to_string_lossy().into_owned())
}

/// The path of the user file under the directory `dir`.
pub open spec fn user_file_under(dir: Seq<char>) -> Seq<char> {
    path_under(path_under(dir, "rcargo"@), "config.toml"@)
}

/// The path of the user file, where there is a directory for it.
pub open spec fn user_file_in(dir: Option<Seq<char>>) -> Option<Seq<char>> {
    match dir {
        Some(d) => Some(user_file_under(d)),
        None => None,
    }
}

/// The path of the user file in the directory `config_dir`, where there is one.
pub fn user_config_path_in(config_dir: Option<String>) -> (path: Option<String>)
    ensures
        opt_text(path) == user_file_in(opt_text(config_dir)),
{
    match config_dir {
        Some(dir) => Some(
            join_path(join_path(dir.as_str(), "rcargo").as_str(), "config.toml"),
        ),
        None => None,
    }
}

/// The path of the user file on this machine, where there is a directory for it. What it is
/// depends on the machine; it is always the one that [`user_config_path_in`] gives for some
/// directory.
pub fn user_config_path() -> (path: Option<String>)
    ensures
        path is Some ==> exists|dir: Seq<char>| path->0@ == #[trigger] user_file_under(dir),
{
    user_config_path_in(config_dir())
}

/// The path that the user file is looked for at, for tests.
pub fn user_config_path_for_test() -> (path: Option<String>)
    ensures
        path is Some ==> exists|dir: Seq<char>| path->0@ == #[trigger] user_file_under(dir),
{
    user_config_path()
}

/// Refuse a remote root that is blank or `/`, and a host that is blank.
pub fn sanity_check(cfg: &Config) -> (out: Result<(), ConfigError>)
    ensures
        out == (if is_blank(cfg.remote_root@) || cfg.remote_root@ == "/"@ {
            Err(ConfigError::RemoteRoot)
        } else if is_blank(cfg.host@) {
            Err(ConfigError::Host)
        } else {
            Ok(())
        }),
{
    if blank(cfg.remote_root.as_str()) || same_text(cfg.remote_root.as_str(), "/") {
        return Err(ConfigError::RemoteRoot);
    }
    if blank(cfg.host.as_str()) {
        return Err(ConfigError::Host);
    }
    Ok(())
}

/// The form of a path to show: the canonical one where there is one, else the one given.
pub fn abs_display(canonical: Option<String>, given: &str) -> (out: String)
    ensures
        out@ == shown_path(opt_text(canonical), given@),
{
    match canonical {
        Some(path) => path,
        None => given.to_owned(),
    }
}

/// The first of five values that is set, in the order of precedence.
pub open spec fn first_set<T>(
    cli: Option<T>,
    env: Option<T>,
    project: Option<T>,
    user: Option<T>,
    default: T,
) -> T {
    if cli is Some {
        cli->0
    } else if env is Some {
        env->0
    } else if project is Some {
        project->0
    } else if user is Some {
        user->0
    } else {
        default
    }
}

/// The layer of a file; a file that is not there sets nothing.
pub open spec fn file_layer(file: LayerFile) -> LayerView {
    match file {
        LayerFile::Parsed(layer) => layer@,
        _ => unset_layer(),
    }
}

/// Precedence: each setting is that of the command line, else that of the environment, else that
/// of the project file, else that of the user file, else the default.
pub proof fn law_precedence(user: LayerFile, project: LayerFile, env: LayerView, cli: LayerView)
    ensures
        ({
            let cfg = overridden(loaded_config(user, project, env), cli);
            let p = file_layer(project);
            let u = file_layer(user);
            &&& cfg.host == first_set(cli.host, env.host, p.host, u.host, "meta"@)
            &&& cfg.remote_root == first_set(
                cli.remote_root,
                env.remote_root,
                p.remote_root,
                u.remote_root,
                "~/rcargo-builds"@,
            )
            &&& cfg.ssh_args == words(
                first_set(cli.ssh_args, env.ssh_args, p.ssh_args, u.ssh_args, Seq::empty()),
            )
            &&& cfg.rsync_args == words(
                first_set(cli.rsync_args, env.rsync_args, p.rsync_args, u.rsync_args, Seq::empty()),
            )
            &&& cfg.pull_artifacts == first_set(
                cli.pull_artifacts,
                env.pull_artifacts,
                p.pull_artifacts,
                u.pull_artifacts,
                false,
            )
        }),
{
    let us = file_layers(user);
    let ps = file_layers(project);
    let layers = us + ps + seq![env];
    assert(layers.drop_last() =~= us + ps);
    if ps.len() == 1 {
        assert((us + ps).drop_last() =~= us);
        assert((us + ps).last() == file_layer(project));
    } else {
        assert(us + ps =~= us);
    }
    if us.len() == 1 {
        assert(us.drop_last() =~= Seq::empty());
    }
    reveal_with_fuel(merged, 4);
}

/// A layer that is not there counts as one that sets nothing.
pub proof fn law_absent_layer_is_unset(before: Seq<LayerView>, after: Seq<LayerView>)
    ensures
        merged(before + seq![unset_layer()] + after) == merged(before + after),
    decreases after.len(),
{
    let with = before + seq![unset_layer()] + after;
    let without = before + after;
    if after.len() == 0 {
        assert(with.drop_last() =~= before);
        assert(without =~= before);
        lemma_merged_over_unset(before);
    } else {
        law_absent_layer_is_unset(before, after.drop_last());
        assert(with.drop_last() =~= before + seq![unset_layer()] + after.drop_last());
        assert(without.drop_last() =~= before + after.drop_last());
    }
}

proof fn lemma_merged_over_unset(layers: Seq<LayerView>)
    ensures
        laid_over(unset_layer(), merged(layers)) == merged(layers),
{
    let m = merged(layers);
    assert(laid_over(unset_layer(), m) =~= m);
}

/// Overriding with one layer and then with another is overriding with the second laid over the
/// first; overriding with a layer that sets nothing changes nothing.
pub proof fn law_overrides_compose(cfg: ConfigView, first: LayerView, second: LayerView)
    ensures
        overridden(overridden(cfg, first), second) == overridden(cfg, laid_over(second, first)),
        overridden(cfg, unset_layer()) == cfg,
{
}

/// An extra argument for `ssh` or `rsync` out of a configuration is never empty and never holds
/// white space.
pub proof fn law_split_args_are_words(s: Seq<char>)
    ensures
        forall|k: int|
            0 <= k < words(s).len() ==> (#[trigger] words(s)[k]).len() > 0 && forall|i: int|
                0 <= i < words(s)[k].len() ==> !crate::text::is_white(#[trigger] words(s)[k][i]),
{
    assert forall|k: int| 0 <= k < words(s).len() implies (#[trigger] words(s)[k]).len() > 0
        && forall|i: int|
        0 <= i < words(s)[k].len() ==> !crate::text::is_white(#[trigger] words(s)[k][i]) by {
        crate::text::lemma_words_are_words(s, k, 0);
        assert forall|i: int| 0 <= i < words(s)[k].len() implies !crate::text::is_white(
            #[trigger] words(s)[k][i],
        ) by {
            crate::text::lemma_words_are_words(s, k, i);
        }
    }
}

} // verus!
