//! The command line: which flags are rcargo's own, and what is cargo's.
//!
//! Flags that begin with `--rcargo-` are consumed here, as long as they stand in front. The first
//! other argument, `--` among them, and everything behind it goes to cargo as it is.
use vstd::prelude::*;

use crate::config::{unset_layer, ConfigError, ConfigFile, LayerView};
use crate::laws::cli::{honours, law_flags_are_honoured};
use crate::text::{after_prefix, copy_tail, parse_port, same_text};
use crate::text::{decimal, lemma_port_reads_back, opt_text, port, stripped, texts, PortError};
use crate::transport::{TransportError, TransportErrorView};

verus! {

/// Selected transport for a run.
#[derive(Debug, Clone, Copy, PartialEq, Eq, Structural)]
pub enum TransportChoice {
    Ssh,
    WebTransport,
}

impl Default for TransportChoice {
    fn default() -> (choice: Self)
        ensures
            choice == TransportChoice::Ssh,
    {
        TransportChoice::Ssh
    }
}

impl TransportChoice {
    /// The name of the choice.
    pub open spec fn name(self) -> Seq<char> {
        match self {
            TransportChoice::Ssh => "Ssh"@,
            TransportChoice::WebTransport => "WebTransport"@,
        }
    }
}

/// What the command line asks for.
#[derive(Debug, PartialEq, Eq)]
pub struct ParsedArgs {
    /// What the flags set in the configuration.
    pub cli_overrides: ConfigFile,
    pub pull_artifacts_flag: bool,
    pub local: bool,
    pub explain_config: bool,
    pub print_version: bool,
    pub print_help: bool,
    /// What goes to cargo.
    pub cargo_args: Vec<String>,
    /// Selected transport; ssh, unless `--rcargo-transport=webtransport` says otherwise.
    pub transport_choice: TransportChoice,
    /// Host of the WebTransport address, in place of the configured host.
    pub wt_host: Option<String>,
    /// Port of the WebTransport address, in place of the default.
    pub wt_port: Option<u16>,
}

/// What a [`ParsedArgs`] holds.
#[verifier::ext_equal]
pub struct ParsedView {
    pub cli_overrides: LayerView,
    pub pull_artifacts_flag: bool,
    pub local: bool,
    pub explain_config: bool,
    pub print_version: bool,
    pub print_help: bool,
    pub cargo_args: Seq<Seq<char>>,
    pub transport_choice: TransportChoice,
    pub wt_host: Option<Seq<char>>,
    pub wt_port: Option<u16>,
}

impl View for ParsedArgs {
    type V = ParsedView;

    open spec fn view(&self) -> ParsedView {
        ParsedView {
            cli_overrides: self.cli_overrides@,
            pull_artifacts_flag: self.pull_artifacts_flag,
            local: self.local,
            explain_config: self.explain_config,
            print_version: self.print_version,
            print_help: self.print_help,
            cargo_args: texts(self.cargo_args@),
            transport_choice: self.transport_choice,
            wt_host: opt_text(self.wt_host),
            wt_port: self.wt_port,
        }
    }
}

/// What a command line without arguments asks for.
pub open spec fn nothing_asked() -> ParsedView {
    ParsedView {
        cli_overrides: unset_layer(),
        pull_artifacts_flag: false,
        local: false,
        explain_config: false,
        print_version: false,
        print_help: false,
        cargo_args: Seq::empty(),
        transport_choice: TransportChoice::Ssh,
        wt_host: None,
        wt_port: None,
    }
}

impl Default for ParsedArgs {
    fn default() -> (parsed: Self)
        ensures
            parsed@ == nothing_asked(),
    {
        let parsed = ParsedArgs {
            cli_overrides: ConfigFile::default(),
            pull_artifacts_flag: false,
            local: false,
            explain_config: false,
            print_version: false,
            print_help: false,
            cargo_args: Vec::new(),
            transport_choice: TransportChoice::default(),
            wt_host: None,
            wt_port: None,
        };
        assert(parsed@ =~= nothing_asked());
        parsed
    }
}

/// Why a run is refused.
#[derive(Debug, PartialEq, Eq)]
pub enum CliError {
    /// A flag stands last and needs a value.
    MissingValue { flag: String },
    /// There is no such transport.
    UnknownTransport { kind: String },
    /// The value is no port number.
    BadPort { value: String, cause: PortError },
    /// There is no such flag.
    UnknownFlag { flag: String },
    /// The program was built without WebTransport.
    NoWebTransport,
    /// The configuration could not be read.
    Load(ConfigError),
    /// The configuration is not usable.
    Config(ConfigError),
    /// The transport gave up.
    Transport(TransportError),
}

/// What a [`CliError`] holds.
pub enum CliErrorView {
    MissingValue { flag: Seq<char> },
    UnknownTransport { kind: Seq<char> },
    BadPort { value: Seq<char>, cause: PortError },
    UnknownFlag { flag: Seq<char> },
    NoWebTransport,
    Load(Seq<char>),
    Config(Seq<char>),
    Transport(TransportErrorView),
}

impl View for CliError {
    type V = CliErrorView;

    open spec fn view(&self) -> CliErrorView {
        match self {
            CliError::MissingValue { flag } => CliErrorView::MissingValue { flag: flag@ },
            CliError::UnknownTransport { kind } => CliErrorView::UnknownTransport { kind: kind@ },
            CliError::BadPort { value, cause } => CliErrorView::BadPort {
                value: value@,
                cause: *cause,
            },
            CliError::UnknownFlag { flag } => CliErrorView::UnknownFlag { flag: flag@ },
            CliError::NoWebTransport => CliErrorView::NoWebTransport,
            CliError::Load(e) => CliErrorView::Load(e.text()),
            CliError::Config(e) => CliErrorView::Config(e.text()),
            CliError::Transport(e) => CliErrorView::Transport(e@),
        }
    }
}

/// The text of a port error.
pub open spec fn port_error_text(cause: PortError) -> Seq<char> {
    match cause {
        PortError::Empty => "cannot parse integer from empty string"@,
        PortError::InvalidDigit => "invalid digit found in string"@,
        PortError::TooLarge => "number too large to fit in target type"@,
    }
}

impl CliErrorView {
    /// The text of the error.
    pub open spec fn text(self) -> Seq<char> {
        match self {
            CliErrorView::MissingValue { flag } => flag + " requires a value"@,
            CliErrorView::UnknownTransport { kind } => "unknown transport `"@ + kind
                + "` (expected `ssh` or `webtransport`)"@,
            CliErrorView::BadPort { value, cause } => "--rcargo-wt-port `"@ + value
                + "` is not a u16: "@ + port_error_text(cause),
            CliErrorView::UnknownFlag { flag } => "unknown rcargo flag: "@ + flag,
            CliErrorView::NoWebTransport =>
                "this rcargo build does not include the webtransport feature; rebuild with `cargo build --features webtransport -p rcargo-cli`"@,
            CliErrorView::Load(e) =>
                "loading rcargo config (env + ./rcargo.toml + user file): "@ + e,
            CliErrorView::Config(e) => e,
            CliErrorView::Transport(e) => e.text(),
        }
    }
}

impl CliError {
    /// The text of the error, for the user.
    pub fn message(&self) -> (out: String)
        ensures
            out@ == self@.text(),
    {
        match self {
            CliError::MissingValue { flag } => {
                let mut out = flag.clone();
                out.append(" requires a value");
                out
            },
            CliError::UnknownTransport { kind } => {
                let mut out = "unknown transport `".to_owned();
                out.append(kind.as_str());
                out.append("` (expected `ssh` or `webtransport`)");
                out
            },
            CliError::BadPort { value, cause } => {
                let mut out = "--rcargo-wt-port `".to_owned();
                out.append(value.as_str());
                out.append("` is not a u16: ");
                out.append(
                    match cause {
                        PortError::Empty => "cannot parse integer from empty string",
                        PortError::InvalidDigit => "invalid digit found in string",
                        PortError::TooLarge => "number too large to fit in target type",
                    },
                );
                out
            },
            CliError::UnknownFlag { flag } => {
                let mut out = "unknown rcargo flag: ".to_owned();
                out.append(flag.as_str());
                out
            },
            CliError::NoWebTransport =>
                "this rcargo build does not include the webtransport feature; rebuild with `cargo build --features webtransport -p rcargo-cli`".to_owned(),
            CliError::Load(e) => {
                let mut out = "loading rcargo config (env + ./rcargo.toml + user file): ".to_owned();
                out.append(e.message().as_str());
                out
            },
            CliError::Config(e) => e.message(),
            CliError::Transport(e) => e.message(),
        }
    }
}

/// The transport that a name stands for.
pub open spec fn transport_named(kind: Seq<char>) -> Option<TransportChoice> {
    if kind == "ssh"@ {
        Some(TransportChoice::Ssh)
    } else if kind == "webtransport"@ || kind == "wt"@ {
        Some(TransportChoice::WebTransport)
    } else {
        None
    }
}

/// A flag of rcargo's own.
#[derive(Debug, Clone, Copy, PartialEq, Eq, Structural)]
pub enum Flag {
    Host,
    RemoteRoot,
    PullArtifacts,
    Transport,
    WtHost,
    WtPort,
    Local,
    ExplainConfig,
    Version,
    Help,
}

impl Flag {
    /// Whether the flag is followed by a value.
    pub open spec fn has_value(self) -> bool {
        self is Host || self is RemoteRoot || self is Transport || self is WtHost || self is WtPort
    }

    /// Tell whether the flag is followed by a value.
    fn takes_value(self) -> (r: bool)
        ensures
            r == self.has_value(),
    {
        match self {
            Flag::Host | Flag::RemoteRoot | Flag::Transport | Flag::WtHost | Flag::WtPort => true,
            _ => false,
        }
    }
}

/// The flag that an argument is.
pub open spec fn flag_named(arg: Seq<char>) -> Option<Flag> {
    if arg == "--rcargo-host"@ {
        Some(Flag::Host)
    } else if arg == "--rcargo-remote-root"@ {
        Some(Flag::RemoteRoot)
    } else if arg == "--rcargo-pull-artifacts"@ {
        Some(Flag::PullArtifacts)
    } else if arg == "--rcargo-transport"@ {
        Some(Flag::Transport)
    } else if arg == "--rcargo-wt-host"@ {
        Some(Flag::WtHost)
    } else if arg == "--rcargo-wt-port"@ {
        Some(Flag::WtPort)
    } else if arg == "--rcargo-local"@ {
        Some(Flag::Local)
    } else if arg == "--rcargo-explain-config"@ {
        Some(Flag::ExplainConfig)
    } else if arg == "--rcargo-version"@ || arg == "-V"@ {
        Some(Flag::Version)
    } else if arg == "--rcargo-help"@ {
        Some(Flag::Help)
    } else {
        None
    }
}

/// `out` with what `flag`, with its value if it has one, asks for.
pub open spec fn with_flag(out: ParsedView, flag: Flag, value: Seq<char>) -> Result<
    ParsedView,
    CliErrorView,
> {
    match flag {
        Flag::Host => Ok(
            ParsedView {
                cli_overrides: LayerView { host: Some(value), ..out.cli_overrides },
                ..out
            },
        ),
        Flag::RemoteRoot => Ok(
            ParsedView {
                cli_overrides: LayerView { remote_root: Some(value), ..out.cli_overrides },
                ..out
            },
        ),
        Flag::PullArtifacts => Ok(
            ParsedView {
                pull_artifacts_flag: true,
                cli_overrides: LayerView { pull_artifacts: Some(true), ..out.cli_overrides },
                ..out
            },
        ),
        Flag::Transport => match transport_named(value) {
            Some(choice) => Ok(ParsedView { transport_choice: choice, ..out }),
            None => Err(CliErrorView::UnknownTransport { kind: value }),
        },
        Flag::WtHost => Ok(ParsedView { wt_host: Some(value), ..out }),
        Flag::WtPort => match port(value) {
            Ok(n) => Ok(ParsedView { wt_port: Some(n), ..out }),
            Err(cause) => Err(CliErrorView::BadPort { value: value, cause: cause }),
        },
        Flag::Local => Ok(ParsedView { local: true, ..out }),
        Flag::ExplainConfig => Ok(ParsedView { explain_config: true, ..out }),
        Flag::Version => Ok(ParsedView { print_version: true, ..out }),
        Flag::Help => Ok(ParsedView { print_help: true, ..out }),
    }
}

/// What `out` and the arguments `args` ask for. Flags are taken from the front, each with its
/// value; the first argument that is no flag of rcargo's, and all behind it, go to cargo. An
/// argument in front that looks like a flag of rcargo's and is none is refused.
pub open spec fn parsed_from(args: Seq<Seq<char>>, out: ParsedView) -> Result<
    ParsedView,
    CliErrorView,
>
    decreases args.len(),
{
    if args.len() == 0 {
        Ok(out)
    } else {
        let arg = args[0];
        let rest = args.drop_first();
        match flag_named(arg) {
            Some(flag) => if !flag.has_value() {
                match with_flag(out, flag, Seq::empty()) {
                    Ok(next) => parsed_from(rest, next),
                    Err(e) => Err(e),
                }
            } else if rest.len() == 0 {
                Err(CliErrorView::MissingValue { flag: arg })
            } else {
                match with_flag(out, flag, rest[0]) {
                    Ok(next) => parsed_from(rest.drop_first(), next),
                    Err(e) => Err(e),
                }
            },
            None => match stripped(arg, "--rcargo-transport="@) {
                Some(kind) => match with_flag(out, Flag::Transport, kind) {
                    Ok(next) => parsed_from(rest, next),
                    Err(e) => Err(e),
                },
                None => if "--rcargo-"@.is_prefix_of(arg) {
                    Err(CliErrorView::UnknownFlag { flag: arg })
                } else {
                    Ok(ParsedView { cargo_args: args, ..out })
                },
            },
        }
    }
}

/// The flag that an argument is.
fn find_flag(arg: &str) -> (flag: Option<Flag>)
    ensures
        flag == flag_named(arg@),
{
    if same_text(arg, "--rcargo-host") {
        Some(Flag::Host)
    } else if same_text(arg, "--rcargo-remote-root") {
        Some(Flag::RemoteRoot)
    } else if same_text(arg, "--rcargo-pull-artifacts") {
        Some(Flag::PullArtifacts)
    } else if same_text(arg, "--rcargo-transport") {
        Some(Flag::Transport)
    } else if same_text(arg, "--rcargo-wt-host") {
        Some(Flag::WtHost)
    } else if same_text(arg, "--rcargo-wt-port") {
        Some(Flag::WtPort)
    } else if same_text(arg, "--rcargo-local") {
        Some(Flag::Local)
    } else if same_text(arg, "--rcargo-explain-config") {
        Some(Flag::ExplainConfig)
    } else if same_text(arg, "--rcargo-version") || same_text(arg, "-V") {
        Some(Flag::Version)
    } else if same_text(arg, "--rcargo-help") {
        Some(Flag::Help)
    } else {
        None
    }
}

/// Put what `flag`, with its value if it has one, asks for into `out`.
fn apply_flag(out: &mut ParsedArgs, flag: Flag, value: &str) -> (r: Result<(), CliError>)
    ensures
        match with_flag(old(out)@, flag, value@) {
            Ok(next) => r is Ok && final(out)@ == next,
            Err(e) => r is Err && r->Err_0@ == e,
        },
{
    match flag {
        Flag::Host => {
            out.cli_overrides.host = Some(value.to_owned());
        },
        Flag::RemoteRoot => {
            out.cli_overrides.remote_root = Some(value.to_owned());
        },
        Flag::PullArtifacts => {
            out.pull_artifacts_flag = true;
            out.cli_overrides.pull_artifacts = Some(true);
        },
        Flag::Transport => {
            if same_text(value, "ssh") {
                out.transport_choice = TransportChoice::Ssh;
            } else if same_text(value, "webtransport") || same_text(value, "wt") {
                out.transport_choice = TransportChoice::WebTransport;
            } else {
                return Err(CliError::UnknownTransport { kind: value.to_owned() });
            }
        },
        Flag::WtHost => {
            out.wt_host = Some(value.to_owned());
        },
        Flag::WtPort => {
            match parse_port(value) {
                Ok(n) => {
                    out.wt_port = Some(n);
                },
                Err(cause) => {
                    return Err(CliError::BadPort { value: value.to_owned(), cause });
                },
            }
        },
        Flag::Local => {
            out.local = true;
        },
        Flag::ExplainConfig => {
            out.explain_config = true;
        },
        Flag::Version => {
            out.print_version = true;
        },
        Flag::Help => {
            out.print_help = true;
        },
    }
    Ok(())
}

/// What a command line asks for; its first string is the program's name.
pub open spec fn parsed_argv(argv: Seq<Seq<char>>) -> Result<ParsedView, CliErrorView> {
    parsed_from(
        if argv.len() == 0 {
            argv
        } else {
            argv.drop_first()
        },
        nothing_asked(),
    )
}

/// Read a command line; its first string is the program's name.
#[verifier::rlimit(40)]
pub fn parse_args(argv: &[String]) -> (out: Result<ParsedArgs, CliError>)
    ensures
        match parsed_argv(texts(argv@)) {
            Ok(p) => out is Ok && out->Ok_0@ == p,
            Err(e) => out is Err && out->Err_0@ == e,
        },
        honours(
            texts(argv@),
            match out {
                Ok(p) => Ok(p@),
                Err(e) => Err(e@),
            },
        ),
{
    let ghost all = texts(argv@);
    proof {
        law_flags_are_honoured(all);
    }
    let mut out = ParsedArgs::default();
    if argv.len() == 0 {
        return Ok(out);
    }
    let mut i: usize = 1;
    assert(all.skip(1) =~= all.drop_first());
    while i < argv.len()
        invariant
            all == texts(argv@),
            honours(all, parsed_argv(all)),
            1 <= i <= argv.len(),
            out@.cargo_args == Seq::<Seq<char>>::empty(),
            parsed_argv(all) == parsed_from(all.skip(i as int), out@),
        decreases argv.len() - i,
    {
        let arg = argv[i].as_str();
        let ghost rest = all.skip(i as int);
        assert(rest[0] == arg@);
        assert(rest.drop_first() =~= all.skip(i + 1));
        match find_flag(arg) {
            Some(flag) => {
                if !flag.takes_value() {
                    let empty = String::new();
                    if let Err(e) = apply_flag(&mut out, flag, empty.as_str()) {
                        return Err(e);
                    }
                    i += 1;
                } else {
                    if i + 1 >= argv.len() {
                        return Err(CliError::MissingValue { flag: argv[i].clone() });
                    }
                    assert(rest.drop_first().drop_first() =~= all.skip(i + 2));
                    if let Err(e) = apply_flag(&mut out, flag, argv[i + 1].as_str()) {
                        return Err(e);
                    }
                    i += 2;
                }
            },
            None => {
                if let Some(kind) = after_prefix(arg, "--rcargo-transport=") {
                    if let Err(e) = apply_flag(&mut out, Flag::Transport, kind.as_str()) {
                        return Err(e);
                    }
                    i += 1;
                } else if after_prefix(arg, "--rcargo-").is_some() {
                    return Err(CliError::UnknownFlag { flag: argv[i].clone() });
                } else {
                    out.cargo_args = copy_tail(argv, i);
                    return Ok(out);
                }
            },
        }
    }
    Ok(out)
}

/// Whether an argument, standing in front, goes to cargo.
pub open spec fn is_for_cargo(arg: Seq<char>) -> bool {
    !"--rcargo-"@.is_prefix_of(arg) && arg != "-V"@
}

/// Flags of rcargo's own are taken one after the other: where `flags` are nothing but such flags
/// with their values, what stands behind them is read as if they had been read before.
pub proof fn law_flags_come_first(
    flags: Seq<Seq<char>>,
    rest: Seq<Seq<char>>,
    out: ParsedView,
    mid: ParsedView,
)
    requires
        parsed_from(flags, out) == Ok::<ParsedView, CliErrorView>(mid),
        mid.cargo_args.len() == 0,
    ensures
        parsed_from(flags + rest, out) == parsed_from(rest, mid),
    decreases flags.len(),
{
    let all = flags + rest;
    if flags.len() == 0 {
        assert(all =~= rest);
    } else {
        assert(all[0] == flags[0]);
        assert(all.drop_first() =~= flags.drop_first() + rest);
        let arg = flags[0];
        match flag_named(arg) {
            Some(flag) => if !flag.has_value() {
                law_flags_come_first(
                    flags.drop_first(),
                    rest,
                    with_flag(out, flag, Seq::empty())->Ok_0,
                    mid,
                );
            } else {
                assert(flags.len() >= 2);
                assert(all.drop_first()[0] == flags.drop_first()[0]);
                assert(all.drop_first().drop_first() =~= flags.drop_first().drop_first() + rest);
                law_flags_come_first(
                    flags.drop_first().drop_first(),
                    rest,
                    with_flag(out, flag, flags[1])->Ok_0,
                    mid,
                );
            },
            None => {
                assert("--rcargo-transport="@.is_prefix_of(arg));
                law_flags_come_first(
                    flags.drop_first(),
                    rest,
                    with_flag(out, Flag::Transport, stripped(arg, "--rcargo-transport="@)->0)->Ok_0,
                    mid,
                );
            },
        }
    }
}

proof fn lemma_own_flags_look_it(arg: Seq<char>)
    requires
        is_for_cargo(arg),
    ensures
        flag_named(arg) is None,
        !"--rcargo-transport="@.is_prefix_of(arg),
{
    let lead = "--rcargo-"@;
    reveal_strlit("--rcargo-");
    reveal_strlit("--rcargo-host");
    reveal_strlit("--rcargo-remote-root");
    reveal_strlit("--rcargo-pull-artifacts");
    reveal_strlit("--rcargo-transport");
    reveal_strlit("--rcargo-transport=");
    reveal_strlit("--rcargo-wt-host");
    reveal_strlit("--rcargo-wt-port");
    reveal_strlit("--rcargo-local");
    reveal_strlit("--rcargo-explain-config");
    reveal_strlit("--rcargo-version");
    reveal_strlit("--rcargo-help");
    if flag_named(arg) is Some || "--rcargo-transport="@.is_prefix_of(arg) {
        assert(arg.len() >= lead.len());
        assert forall|i: int| 0 <= i < lead.len() implies arg[i] == lead[i] by {
            if "--rcargo-transport="@.is_prefix_of(arg) {
                assert(arg[i] == arg.take("--rcargo-transport="@.len() as int)[i]);
            }
        }
        assert(arg.take(lead.len() as int) =~= lead);
        assert(lead.is_prefix_of(arg));
    }
}

/// Everything from the first argument that is none of rcargo's flags on goes to cargo, word for
/// word and in order, whatever it looks like; the flags before it stand. `--` is such an argument.
pub proof fn law_cargo_args_are_verbatim(
    flags: Seq<Seq<char>>,
    rest: Seq<Seq<char>>,
    mid: ParsedView,
)
    requires
        parsed_from(flags, nothing_asked()) == Ok::<ParsedView, CliErrorView>(mid),
        mid.cargo_args.len() == 0,
        rest.len() > 0,
        is_for_cargo(rest[0]),
    ensures
        parsed_from(flags + rest, nothing_asked()) == Ok::<ParsedView, CliErrorView>(
            (ParsedView { cargo_args: rest, ..mid }),
        ),
        is_for_cargo("--"@),
{
    law_flags_come_first(flags, rest, nothing_asked(), mid);
    lemma_own_flags_look_it(rest[0]);
    reveal_strlit("--");
    reveal_strlit("-V");
    reveal_strlit("--rcargo-");
    assert("--"@[1] != "-V"@[1]);
    assert("--rcargo-"@.len() > "--"@.len());
}

/// Nothing of a command line that is read is lost or changed on its way to cargo: what cargo gets
/// is the end of the command line.
pub proof fn law_cargo_args_are_the_tail(args: Seq<Seq<char>>, out: ParsedView)
    requires
        out.cargo_args.len() == 0,
        parsed_from(args, out) is Ok,
    ensures
        parsed_from(args, out)->Ok_0.cargo_args.is_suffix_of(args),
    decreases args.len(),
{
    let end = parsed_from(args, out)->Ok_0.cargo_args;
    if args.len() == 0 {
        assert(end =~= args.skip(0));
    } else {
        let arg = args[0];
        let rest = args.drop_first();
        match flag_named(arg) {
            Some(flag) => if !flag.has_value() {
                law_cargo_args_are_the_tail(rest, with_flag(out, flag, Seq::empty())->Ok_0);
                lemma_suffix_of_tail(end, args);
            } else {
                law_cargo_args_are_the_tail(
                    rest.drop_first(),
                    with_flag(out, flag, rest[0])->Ok_0,
                );
                lemma_suffix_of_tail(end, rest);
                lemma_suffix_of_tail(end, args);
            },
            None => if "--rcargo-transport="@.is_prefix_of(arg) {
                law_cargo_args_are_the_tail(
                    rest,
                    with_flag(out, Flag::Transport, stripped(arg, "--rcargo-transport="@)->0)->Ok_0,
                );
                lemma_suffix_of_tail(end, args);
            } else {
                assert(end =~= args.skip(0));
            },
        }
    }
}

proof fn lemma_suffix_of_tail(end: Seq<Seq<char>>, args: Seq<Seq<char>>)
    requires
        args.len() > 0,
        end.is_suffix_of(args.drop_first()),
    ensures
        end.is_suffix_of(args),
{
    let rest = args.drop_first();
    assert(args.skip(args.len() - end.len()) =~= rest.skip(rest.len() - end.len()));
}

/// A flag that looks like one of rcargo's and is none is refused, never forwarded.
pub proof fn law_unknown_flag_is_refused(
    flags: Seq<Seq<char>>,
    arg: Seq<char>,
    rest: Seq<Seq<char>>,
    mid: ParsedView,
)
    requires
        parsed_from(flags, nothing_asked()) == Ok::<ParsedView, CliErrorView>(mid),
        mid.cargo_args.len() == 0,
        "--rcargo-"@.is_prefix_of(arg),
        flag_named(arg) is None,
        !"--rcargo-transport="@.is_prefix_of(arg),
    ensures
        parsed_from(flags + seq![arg] + rest, nothing_asked()) == Err::<ParsedView, CliErrorView>(
            CliErrorView::UnknownFlag { flag: arg },
        ),
{
    law_flags_come_first(flags, seq![arg] + rest, nothing_asked(), mid);
    assert(flags + seq![arg] + rest =~= flags + (seq![arg] + rest));
    assert((seq![arg] + rest)[0] == arg);
}

/// A transport may be named behind its flag or, with `=`, in it: both ask for the same.
pub proof fn law_transport_forms_agree(kind: Seq<char>, rest: Seq<Seq<char>>, out: ParsedView)
    ensures
        parsed_from(seq!["--rcargo-transport="@ + kind] + rest, out) == parsed_from(
            seq!["--rcargo-transport"@, kind] + rest,
            out,
        ),
{
    let arg = "--rcargo-transport="@ + kind;
    let one = seq![arg] + rest;
    let two = seq!["--rcargo-transport"@, kind] + rest;
    assert(one[0] == arg);
    assert(one.drop_first() =~= rest);
    assert(two[0] == "--rcargo-transport"@);
    assert(two.drop_first()[0] == kind);
    assert(two.drop_first().drop_first() =~= rest);
    assert(arg.take("--rcargo-transport="@.len() as int) =~= "--rcargo-transport="@);
    assert(arg.skip("--rcargo-transport="@.len() as int) =~= kind);
    reveal_strlit("--rcargo-host");
    reveal_strlit("--rcargo-remote-root");
    reveal_strlit("--rcargo-pull-artifacts");
    reveal_strlit("--rcargo-transport");
    reveal_strlit("--rcargo-transport=");
    reveal_strlit("--rcargo-wt-host");
    reveal_strlit("--rcargo-wt-port");
    reveal_strlit("--rcargo-local");
    reveal_strlit("--rcargo-explain-config");
    reveal_strlit("--rcargo-version");
    reveal_strlit("--rcargo-help");
    reveal_strlit("-V");
    assert(arg[9] == 't' && arg[18] == '=' && arg.len() >= 19);
    assert(flag_named(arg) is None);
    assert("--rcargo-transport"@[9] == 't');
    assert("--rcargo-host"@[9] == 'h');
    assert("--rcargo-remote-root"@[9] == 'r');
    assert("--rcargo-pull-artifacts"@[9] == 'p');
    assert(flag_named("--rcargo-transport"@) == Some(Flag::Transport));
}

/// Every port can be given on the command line.
pub proof fn law_port_is_read_back(out: ParsedView, n: u16)
    ensures
        with_flag(out, Flag::WtPort, decimal(n as nat)) == Ok::<ParsedView, CliErrorView>(
            (ParsedView { wt_port: Some(n), ..out }),
        ),
{
    lemma_port_reads_back(n);
}

} // verus!
