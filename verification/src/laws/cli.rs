//! Laws of the command line.
use vstd::prelude::*;

use crate::cli::{flag_named, nothing_asked, parsed_argv, parsed_from, with_flag};
use crate::cli::{CliErrorView, Flag, ParsedView, TransportChoice};
use crate::text::{port, PortError};

verus! {

/// A flag as it is given: its name and, where it has one, its value.
pub struct Given {
    pub name: Seq<char>,
    pub value: Option<Seq<char>>,
}

impl Given {
    /// Whether the flag is one of rcargo's, with a value that it takes, or with none.
    pub open spec fn is_right(self) -> bool {
        if self.name == "--rcargo-host"@ || self.name == "--rcargo-remote-root"@ || self.name
            == "--rcargo-wt-host"@ {
            self.value is Some
        } else if self.name == "--rcargo-transport"@ {
            self.value == Some("ssh"@) || self.value == Some("webtransport"@) || self.value == Some(
                "wt"@,
            )
        } else if self.name == "--rcargo-wt-port"@ {
            self.value is Some && port(self.value->0) is Ok
        } else {
            &&& self.value is None
            &&& {
                ||| self.name == "--rcargo-pull-artifacts"@
                ||| self.name == "--rcargo-local"@
                ||| self.name == "--rcargo-explain-config"@
                ||| self.name == "--rcargo-version"@
                ||| self.name == "-V"@
                ||| self.name == "--rcargo-help"@
            }
        }
    }
}

/// The arguments that give these flags: each name, and its value behind it.
pub open spec fn args_of(given: Seq<Given>) -> Seq<Seq<char>>
    decreases given.len(),
{
    if given.len() == 0 {
        Seq::empty()
    } else {
        let first = match given[0].value {
            Some(v) => seq![given[0].name, v],
            None => seq![given[0].name],
        };
        first + args_of(given.drop_first())
    }
}

/// Whether a flag of this name is given.
pub open spec fn is_given(given: Seq<Given>, name: Seq<char>) -> bool {
    exists|i: int| 0 <= i < given.len() && (#[trigger] given[i]).name == name
}

/// The value of the last flag of this name, where one is given.
pub open spec fn last_value(given: Seq<Given>, name: Seq<char>) -> Option<Seq<char>>
    decreases given.len(),
{
    if given.len() == 0 {
        None
    } else if given.last().name == name {
        given.last().value
    } else {
        last_value(given.drop_last(), name)
    }
}

/// Whether what a command line comes to honours the flags on it: wherever it is a list of flags,
/// each with a value that it takes, and then what is cargo's, each setting is the value of the last
/// flag that names it, and what is cargo's is handed on.
pub open spec fn honours(argv: Seq<Seq<char>>, out: Result<ParsedView, CliErrorView>) -> bool {
    forall|program: Seq<char>, given: Seq<Given>, rest: Seq<Seq<char>>|
        #![trigger seq![program] + args_of(given) + rest]
        {
            &&& argv == seq![program] + args_of(given) + rest
            &&& forall|i: int| 0 <= i < given.len() ==> (#[trigger] given[i]).is_right()
            &&& rest.len() > 0 ==> !"--rcargo-"@.is_prefix_of(rest[0]) && rest[0] != "-V"@
        } ==> {
            &&& out matches Ok(p)
            &&& p.cli_overrides.host == last_value(given, "--rcargo-host"@)
            &&& p.cli_overrides.remote_root == last_value(given, "--rcargo-remote-root"@)
            &&& p.cli_overrides.pull_artifacts is Some <==> is_given(
                given,
                "--rcargo-pull-artifacts"@,
            )
            &&& p.local == is_given(given, "--rcargo-local"@)
            &&& p.explain_config == is_given(given, "--rcargo-explain-config"@)
            &&& p.print_help == is_given(given, "--rcargo-help"@)
            &&& p.wt_host == last_value(given, "--rcargo-wt-host"@)
            &&& p.wt_port is Some <==> last_value(given, "--rcargo-wt-port"@) is Some
            &&& p.cargo_args == rest
        }
}

/// Every command line is read so that its flags are honoured.
pub proof fn law_flags_are_honoured(argv: Seq<Seq<char>>)
    ensures
        honours(argv, parsed_argv(argv)),
{
    assert forall|program: Seq<char>, given: Seq<Given>, rest: Seq<Seq<char>>|
        #![trigger seq![program] + args_of(given) + rest]
        {
            &&& argv == seq![program] + args_of(given) + rest
            &&& forall|i: int| 0 <= i < given.len() ==> (#[trigger] given[i]).is_right()
            &&& rest.len() > 0 ==> !"--rcargo-"@.is_prefix_of(rest[0]) && rest[0] != "-V"@
        } implies {
        &&& parsed_argv(argv) matches Ok(p)
        &&& p.cli_overrides.host == last_value(given, "--rcargo-host"@)
        &&& p.cli_overrides.remote_root == last_value(given, "--rcargo-remote-root"@)
        &&& p.cli_overrides.pull_artifacts is Some <==> is_given(given, "--rcargo-pull-artifacts"@)
        &&& p.local == is_given(given, "--rcargo-local"@)
        &&& p.explain_config == is_given(given, "--rcargo-explain-config"@)
        &&& p.print_help == is_given(given, "--rcargo-help"@)
        &&& p.wt_host == last_value(given, "--rcargo-wt-host"@)
        &&& p.wt_port is Some <==> last_value(given, "--rcargo-wt-port"@) is Some
        &&& p.cargo_args == rest
    } by {
        law_each_setting_is_that_of_its_last_flag(program, given, rest);
    }
}

/// After any list of flags, each setting is the value of the last flag that names it, whatever
/// other flags stand before or behind that one; a setting that no flag names is not set. What
/// follows the flags goes to cargo, word for word.
pub proof fn law_each_setting_is_that_of_its_last_flag(
    program: Seq<char>,
    given: Seq<Given>,
    rest: Seq<Seq<char>>,
)
    requires
        forall|i: int| 0 <= i < given.len() ==> (#[trigger] given[i]).is_right(),
        rest.len() > 0 ==> !"--rcargo-"@.is_prefix_of(rest[0]) && rest[0] != "-V"@,
    ensures
        parsed_argv(seq![program] + args_of(given) + rest) is Ok,
        ({
            let p = parsed_argv(seq![program] + args_of(given) + rest)->Ok_0;
            &&& p.cli_overrides.host == last_value(given, "--rcargo-host"@)
            &&& p.cli_overrides.remote_root == last_value(given, "--rcargo-remote-root"@)
            &&& p.cli_overrides.ssh_args is None
            &&& p.cli_overrides.rsync_args is None
            &&& p.cli_overrides.pull_artifacts == (if is_given(
                given,
                "--rcargo-pull-artifacts"@,
            ) {
                Some(true)
            } else {
                None
            })
            &&& p.pull_artifacts_flag == is_given(given, "--rcargo-pull-artifacts"@)
            &&& p.local == is_given(given, "--rcargo-local"@)
            &&& p.explain_config == is_given(given, "--rcargo-explain-config"@)
            &&& p.print_version == (is_given(given, "--rcargo-version"@) || is_given(given, "-V"@))
            &&& p.print_help == is_given(given, "--rcargo-help"@)
            &&& p.transport_choice is WebTransport <==> last_value(given, "--rcargo-transport"@)
                == Some("webtransport"@) || last_value(given, "--rcargo-transport"@) == Some("wt"@)
            &&& p.wt_host == last_value(given, "--rcargo-wt-host"@)
            &&& p.wt_port == (match last_value(given, "--rcargo-wt-port"@) {
                Some(v) => Some(port(v)->Ok_0),
                None => None,
            })
            &&& p.cargo_args == rest
        }),
{
    lemma_flags_in_front(given);
    let args = args_of(given) + rest;
    let argv = seq![program] + args_of(given) + rest;
    assert(argv.drop_first() =~= args);
    let mid = parsed_from(args_of(given), nothing_asked())->Ok_0;
    crate::cli::law_flags_come_first(args_of(given), rest, nothing_asked(), mid);
    if rest.len() > 0 {
        crate::cli::law_cargo_args_are_verbatim(args_of(given), rest, mid);
    } else {
        assert(rest =~= Seq::empty());
        assert(mid.cargo_args =~= rest);
    }
}

/// How the names of the flags, and those of the transports, differ.
proof fn lemma_names_differ()
    ensures
        "--rcargo-host"@.len() == 13 && "--rcargo-host"@[10] == 'o',
        "--rcargo-remote-root"@.len() == 20,
        "--rcargo-pull-artifacts"@.len() == 23 && "--rcargo-pull-artifacts"@[9] == 'p',
        "--rcargo-transport"@.len() == 18,
        "--rcargo-wt-host"@.len() == 16 && "--rcargo-wt-host"@[12] == 'h',
        "--rcargo-wt-port"@.len() == 16 && "--rcargo-wt-port"@[12] == 'p',
        "--rcargo-local"@.len() == 14,
        "--rcargo-explain-config"@.len() == 23 && "--rcargo-explain-config"@[9] == 'e',
        "--rcargo-version"@.len() == 16,
        "-V"@.len() == 2,
        "--rcargo-help"@.len() == 13 && "--rcargo-help"@[10] == 'e',
        "--rcargo-version"@[12] == 's',
        "ssh"@.len() == 3,
        "webtransport"@.len() == 12,
        "wt"@.len() == 2,
{
    reveal_strlit("--rcargo-host");
    reveal_strlit("--rcargo-remote-root");
    reveal_strlit("--rcargo-pull-artifacts");
    reveal_strlit("--rcargo-transport");
    reveal_strlit("--rcargo-wt-host");
    reveal_strlit("--rcargo-wt-port");
    reveal_strlit("--rcargo-local");
    reveal_strlit("--rcargo-explain-config");
    reveal_strlit("--rcargo-version");
    reveal_strlit("-V");
    reveal_strlit("--rcargo-help");
    reveal_strlit("ssh");
    reveal_strlit("webtransport");
    reveal_strlit("wt");
}

/// What each flag is.
proof fn lemma_flag_names()
    ensures
        flag_named("--rcargo-host"@) == Some(Flag::Host),
        flag_named("--rcargo-remote-root"@) == Some(Flag::RemoteRoot),
        flag_named("--rcargo-pull-artifacts"@) == Some(Flag::PullArtifacts),
        flag_named("--rcargo-transport"@) == Some(Flag::Transport),
        flag_named("--rcargo-wt-host"@) == Some(Flag::WtHost),
        flag_named("--rcargo-wt-port"@) == Some(Flag::WtPort),
        flag_named("--rcargo-local"@) == Some(Flag::Local),
        flag_named("--rcargo-explain-config"@) == Some(Flag::ExplainConfig),
        flag_named("--rcargo-version"@) == Some(Flag::Version),
        flag_named("-V"@) == Some(Flag::Version),
        flag_named("--rcargo-help"@) == Some(Flag::Help),
        "--rcargo-host"@.len() == 13 && "--rcargo-host"@[10] == 'o',
        "--rcargo-remote-root"@.len() == 20,
        "--rcargo-pull-artifacts"@.len() == 23 && "--rcargo-pull-artifacts"@[9] == 'p',
        "--rcargo-transport"@.len() == 18,
        "--rcargo-wt-host"@.len() == 16 && "--rcargo-wt-host"@[12] == 'h',
        "--rcargo-wt-port"@.len() == 16 && "--rcargo-wt-port"@[12] == 'p',
        "--rcargo-local"@.len() == 14,
        "--rcargo-explain-config"@.len() == 23 && "--rcargo-explain-config"@[9] == 'e',
        "--rcargo-version"@.len() == 16,
        "-V"@.len() == 2,
        "--rcargo-help"@.len() == 13 && "--rcargo-help"@[10] == 'e',
        "--rcargo-version"@[12] == 's',
        "ssh"@.len() == 3,
        "webtransport"@.len() == 12,
        "wt"@.len() == 2,
{
    lemma_names_differ();
}

/// What the flags alone ask for. The last flag is read last.
#[verifier::rlimit(60)]
proof fn lemma_flags_in_front(given: Seq<Given>)
    requires
        forall|i: int| 0 <= i < given.len() ==> (#[trigger] given[i]).is_right(),
    ensures
        parsed_from(args_of(given), nothing_asked()) is Ok,
        ({
            let p = parsed_from(args_of(given), nothing_asked())->Ok_0;
            &&& p.cli_overrides.host == last_value(given, "--rcargo-host"@)
            &&& p.cli_overrides.remote_root == last_value(given, "--rcargo-remote-root"@)
            &&& p.cli_overrides.ssh_args is None
            &&& p.cli_overrides.rsync_args is None
            &&& p.cli_overrides.pull_artifacts == (if is_given(
                given,
                "--rcargo-pull-artifacts"@,
            ) {
                Some(true)
            } else {
                None
            })
            &&& p.pull_artifacts_flag == is_given(given, "--rcargo-pull-artifacts"@)
            &&& p.local == is_given(given, "--rcargo-local"@)
            &&& p.explain_config == is_given(given, "--rcargo-explain-config"@)
            &&& p.print_version == (is_given(given, "--rcargo-version"@) || is_given(given, "-V"@))
            &&& p.print_help == is_given(given, "--rcargo-help"@)
            &&& p.transport_choice is WebTransport <==> last_value(given, "--rcargo-transport"@)
                == Some("webtransport"@) || last_value(given, "--rcargo-transport"@) == Some("wt"@)
            &&& p.wt_host == last_value(given, "--rcargo-wt-host"@)
            &&& p.wt_port == (match last_value(given, "--rcargo-wt-port"@) {
                Some(v) => Some(port(v)->Ok_0),
                None => None,
            })
            &&& p.cargo_args.len() == 0
        }),
    decreases given.len(),
{
    lemma_flag_names();
    if given.len() > 0 {
        let front = given.drop_last();
        let g = given.last();
        assert forall|i: int| 0 <= i < front.len() implies (#[trigger] front[i]).is_right() by {
            assert(front[i] == given[i]);
        }
        lemma_flags_in_front(front);
        let out = parsed_from(args_of(front), nothing_asked())->Ok_0;
        lemma_args_of_last(given);
        let one = match g.value {
            Some(v) => seq![g.name, v],
            None => seq![g.name],
        };
        crate::cli::law_flags_come_first(args_of(front), one, nothing_asked(), out);
        assert(g == given[given.len() - 1]);
        assert(g.is_right());
        lemma_one_flag(g, out);
        lemma_given_of_last(given, "--rcargo-pull-artifacts"@);
        lemma_given_of_last(given, "--rcargo-local"@);
        lemma_given_of_last(given, "--rcargo-explain-config"@);
        lemma_given_of_last(given, "--rcargo-version"@);
        lemma_given_of_last(given, "-V"@);
        lemma_given_of_last(given, "--rcargo-help"@);
    }
}

proof fn lemma_one_flag(g: Given, out: ParsedView)
    requires
        g.is_right(),
    ensures
        flag_named(g.name) is Some,
        ({
            let one = match g.value {
                Some(v) => seq![g.name, v],
                None => seq![g.name],
            };
            let v = if g.value is Some {
                g.value->0
            } else {
                Seq::empty()
            };
            &&& with_flag(out, flag_named(g.name)->0, v) is Ok
            &&& parsed_from(one, out) == with_flag(out, flag_named(g.name)->0, v)
        }),
{
    lemma_flag_names();
    let one = match g.value {
        Some(v) => seq![g.name, v],
        None => seq![g.name],
    };
    reveal_with_fuel(parsed_from, 3);
    assert(one[0] == g.name);
    if g.value is Some {
        assert(one.drop_first()[0] == g.value->0);
        assert(one.drop_first().drop_first() =~= Seq::empty());
    } else {
        assert(one.drop_first() =~= Seq::empty());
    }
}

proof fn lemma_given_of_last(given: Seq<Given>, name: Seq<char>)
    requires
        given.len() > 0,
    ensures
        is_given(given, name) == (is_given(given.drop_last(), name) || given.last().name == name),
{
    let front = given.drop_last();
    if is_given(given, name) {
        let i = choose|i: int| 0 <= i < given.len() && (#[trigger] given[i]).name == name;
        if i < front.len() {
            assert(front[i] == given[i]);
        }
    }
    if is_given(front, name) {
        let i = choose|i: int| 0 <= i < front.len() && (#[trigger] front[i]).name == name;
        assert(given[i] == front[i]);
    }
    if given.last().name == name {
        assert(given[given.len() - 1].name == name);
    }
}

proof fn lemma_args_of_last(given: Seq<Given>)
    requires
        given.len() > 0,
    ensures
        args_of(given) == args_of(given.drop_last()) + (match given.last().value {
            Some(v) => seq![given.last().name, v],
            None => seq![given.last().name],
        }),
    decreases given.len(),
{
    let one = match given.last().value {
        Some(v) => seq![given.last().name, v],
        None => seq![given.last().name],
    };
    if given.len() == 1 {
        assert(given.drop_first() =~= Seq::empty());
        assert(given.drop_last() =~= Seq::empty());
        assert(args_of(given.drop_first()) =~= Seq::empty());
        assert(args_of(given) =~= args_of(given.drop_last()) + one);
    } else {
        let rest = given.drop_first();
        lemma_args_of_last(rest);
        assert(rest.drop_last() =~= given.drop_last().drop_first());
        assert(given.drop_last()[0] == given[0]);
        assert(rest.last() == given.last());
        assert(args_of(given) =~= args_of(given.drop_last()) + one);
    }
}

/// A command line is refused at the first thing in front that is wrong: a flag that needs a value
/// and stands last, a transport that there is not, a text that is no port.
pub proof fn law_wrong_flags_are_refused(
    program: Seq<char>,
    given: Seq<Given>,
    name: Seq<char>,
    value: Seq<char>,
    rest: Seq<Seq<char>>,
)
    requires
        forall|i: int| 0 <= i < given.len() ==> (#[trigger] given[i]).is_right(),
    ensures
        ({
            let front = seq![program] + args_of(given);
            &&& name == "--rcargo-host"@ || name == "--rcargo-remote-root"@ || name
                == "--rcargo-transport"@ || name == "--rcargo-wt-host"@ || name
                == "--rcargo-wt-port"@ ==> parsed_argv(front.push(name)) == Err::<
                ParsedView,
                CliErrorView,
            >(CliErrorView::MissingValue { flag: name })
            &&& value != "ssh"@ && value != "webtransport"@ && value != "wt"@ ==> parsed_argv(
                front.push("--rcargo-transport"@).push(value) + rest,
            ) == Err::<ParsedView, CliErrorView>(CliErrorView::UnknownTransport { kind: value })
            &&& port(value) is Err ==> parsed_argv(front.push("--rcargo-wt-port"@).push(value) + rest)
                == Err::<ParsedView, CliErrorView>(
                CliErrorView::BadPort { value: value, cause: port(value)->Err_0 },
            )
        }),
{
    lemma_flag_names();
    lemma_flags_in_front(given);
    let front = seq![program] + args_of(given);
    let mid = parsed_from(args_of(given), nothing_asked())->Ok_0;
    crate::cli::law_flags_come_first(args_of(given), seq![name], nothing_asked(), mid);
    assert(front.push(name).drop_first() =~= args_of(given) + seq![name]);
    assert(seq![name].drop_first() =~= Seq::empty());
    let t = seq!["--rcargo-transport"@, value] + rest;
    assert((front.push("--rcargo-transport"@).push(value) + rest).drop_first() =~= args_of(given)
        + t);
    crate::cli::law_flags_come_first(args_of(given), t, nothing_asked(), mid);
    assert(t[0] == "--rcargo-transport"@ && t.drop_first()[0] == value);
    let w = seq!["--rcargo-wt-port"@, value] + rest;
    assert((front.push("--rcargo-wt-port"@).push(value) + rest).drop_first() =~= args_of(given)
        + w);
    crate::cli::law_flags_come_first(args_of(given), w, nothing_asked(), mid);
    assert(w[0] == "--rcargo-wt-port"@ && w.drop_first()[0] == value);
}

/// There are no other flags: an argument in front that begins like one of rcargo's is refused.
pub proof fn law_there_are_no_other_flags(
    program: Seq<char>,
    given: Seq<Given>,
    arg: Seq<char>,
    rest: Seq<Seq<char>>,
)
    requires
        forall|i: int| 0 <= i < given.len() ==> (#[trigger] given[i]).is_right(),
        "--rcargo-"@.is_prefix_of(arg),
        !"--rcargo-transport="@.is_prefix_of(arg),
        arg != "--rcargo-host"@ && arg != "--rcargo-remote-root"@,
        arg != "--rcargo-pull-artifacts"@ && arg != "--rcargo-transport"@,
        arg != "--rcargo-wt-host"@ && arg != "--rcargo-wt-port"@ && arg != "--rcargo-local"@,
        arg != "--rcargo-explain-config"@ && arg != "--rcargo-version"@ && arg != "--rcargo-help"@,
    ensures
        parsed_argv((seq![program] + args_of(given)).push(arg) + rest) == Err::<
            ParsedView,
            CliErrorView,
        >(CliErrorView::UnknownFlag { flag: arg }),
{
    reveal_strlit("--rcargo-");
    reveal_strlit("-V");
    if arg == "-V"@ {
        assert("-V"@.len() < "--rcargo-"@.len());
    }
    lemma_flags_in_front(given);
    let mid = parsed_from(args_of(given), nothing_asked())->Ok_0;
    crate::cli::law_unknown_flag_is_refused(args_of(given), arg, rest, mid);
    assert(((seq![program] + args_of(given)).push(arg) + rest).drop_first() =~= args_of(given)
        + seq![arg] + rest);
}

/// Of a command line without arguments nothing is read, not even the program's name.
pub proof fn law_no_arguments(program: Seq<char>)
    ensures
        parsed_argv(Seq::empty()) == parsed_argv(seq![program]),
        parsed_argv(seq![program]) is Ok,
        parsed_argv(seq![program])->Ok_0.cargo_args.len() == 0,
{
    assert(seq![program].drop_first() =~= Seq::empty());
}

/// What the user is told of each refusal.
pub proof fn law_refusals_say_why(text: Seq<char>)
    ensures
        (CliErrorView::MissingValue { flag: text }).text() == text + " requires a value"@,
        (CliErrorView::UnknownTransport { kind: text }).text() == "unknown transport `"@ + text
            + "` (expected `ssh` or `webtransport`)"@,
        (CliErrorView::UnknownFlag { flag: text }).text() == "unknown rcargo flag: "@ + text,
        (CliErrorView::BadPort { value: text, cause: PortError::Empty }).text()
            == "--rcargo-wt-port `"@ + text + "` is not a u16: "@
            + "cannot parse integer from empty string"@,
        (CliErrorView::BadPort { value: text, cause: PortError::InvalidDigit }).text()
            == "--rcargo-wt-port `"@ + text + "` is not a u16: "@
            + "invalid digit found in string"@,
        (CliErrorView::BadPort { value: text, cause: PortError::TooLarge }).text()
            == "--rcargo-wt-port `"@ + text + "` is not a u16: "@
            + "number too large to fit in target type"@,
        CliErrorView::NoWebTransport.text()
            == "this rcargo build does not include the webtransport feature; rebuild with `cargo build --features webtransport -p rcargo-cli`"@,
        CliErrorView::Load(text).text()
            == "loading rcargo config (env + ./rcargo.toml + user file): "@ + text,
        CliErrorView::Config(text).text() == text,
{
}

} // verus!
