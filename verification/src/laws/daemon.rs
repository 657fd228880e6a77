//! Laws of the daemon.
use vstd::prelude::*;

use crate::daemon::{expanded, job_step, notice_of_cert, serve_step};
use crate::daemon::{JobInputView, JobStepView, ServeInputView, ServeStepView};
use crate::laws::project_key::hex_of;
use crate::proto::{EventView, RequestView};
use crate::text::is_white;

verus! {

/// What a client is owed: nothing for a line of white space; for any other line, what it decodes
/// to. A hello is answered with version 1, a line that is no request with an error that says why, a
/// build is run as it was asked for, and only a bye ends the connection.
pub proof fn law_clients_get_what_they_are_owed(
    line: Seq<char>,
    i: int,
    cause: Seq<char>,
    version: u32,
    key: Seq<char>,
    args: Seq<Seq<char>>,
    env: Seq<(Seq<char>, Seq<char>)>,
)
    ensures
        0 <= i < line.len() && !is_white(line[i]) ==> serve_step(ServeInputView::Line(line))
            == ServeStepView::Decode(line),
        (forall|k: int| 0 <= k < line.len() ==> is_white(#[trigger] line[k])) ==> serve_step(
            ServeInputView::Line(line),
        ) == ServeStepView::Read,
        serve_step(ServeInputView::Undecodable(cause)) == ServeStepView::Answer(
            EventView::Error { message: "parse error: "@ + cause },
        ),
        serve_step(ServeInputView::Decoded(RequestView::Hello { client_version: version }))
            == ServeStepView::Answer(EventView::HelloAck { server_version: 1 }),
        serve_step(ServeInputView::Decoded(RequestView::Bye)) == ServeStepView::Stop,
        serve_step(
            ServeInputView::Decoded(RequestView::Build { project_key: key, args, env }),
        ) == (ServeStepView::Build { project_key: key, args, env }),
{
}

/// What the daemon does for a build: it makes `<root>/<key>`, runs there `cargo` with every
/// argument and variable that was asked for, sends each line with the stream that it came from, and
/// ends with the exit code, or 255 where there is none. A build that cannot begin ends with an error
/// that says why and with 1, or with 127 where cargo is what cannot be started.
pub proof fn law_daemon_runs_the_build(
    root: Seq<char>,
    key: Seq<char>,
    args: Seq<Seq<char>>,
    env: Seq<(Seq<char>, Seq<char>)>,
    text: Seq<char>,
    code: i32,
)
    ensures
        job_step(root, key, args, env, JobInputView::Start) == JobStepView::MakeDir(
            root + "/"@ + key,
        ),
        ({
            &&& job_step(root, key, args, env, JobInputView::DirReady) matches JobStepView::Spawn {
                command,
                dir,
                env: vars,
            }
            &&& command.program == "cargo"@
            &&& command.args == args
            &&& dir == root + "/"@ + key
            &&& vars == env
        }),
        job_step(root, key, args, env, JobInputView::DirFailed(text)) == JobStepView::Finish(
            seq![
                EventView::Error { message: "mkdir "@ + (root + "/"@ + key) + ": "@ + text },
                EventView::Exit { code: 1 },
            ],
        ),
        job_step(root, key, args, env, JobInputView::SpawnFailed(text)) == JobStepView::Finish(
            seq![
                EventView::Error { message: "spawn cargo: "@ + text },
                EventView::Exit { code: 127 },
            ],
        ),
        job_step(root, key, args, env, JobInputView::OutLine(text)) == JobStepView::Send(
            EventView::Stdout { data: text },
        ),
        job_step(root, key, args, env, JobInputView::ErrLine(text)) == JobStepView::Send(
            EventView::Stderr { data: text },
        ),
        job_step(root, key, args, env, JobInputView::Exited(Some(code))) == JobStepView::Finish(
            seq![EventView::Exit { code }],
        ),
        job_step(root, key, args, env, JobInputView::Exited(None)) == JobStepView::Finish(
            seq![EventView::Exit { code: 255 }],
        ),
{
}

/// A leading `~/` stands for the home directory, with one slash behind it; no other path changes,
/// and none does where the home directory is not known.
pub proof fn law_tilde_is_the_home_directory(
    home: Seq<char>,
    slashes: Seq<char>,
    rest: Seq<char>,
    path: Seq<char>,
)
    requires
        home.len() > 0 ==> home.last() != '/',
        forall|i: int| 0 <= i < slashes.len() ==> #[trigger] slashes[i] == '/',
    ensures
        expanded("~/"@ + rest, Some(home + slashes)) == home + "/"@ + rest,
        path.len() < 2 || path[0] != '~' || path[1] != '/' ==> expanded(path, Some(home)) == path,
        expanded(path, None) == path,
{
    reveal_strlit("~/");
    assert("~/"@ =~= seq!['~', '/']);
    let p = "~/"@ + rest;
    assert(p.take(2) =~= "~/"@);
    assert(p.skip(2) =~= rest);
    lemma_slashes_go(home, slashes);
    if "~/"@.is_prefix_of(path) {
        assert(path.take(2) =~= "~/"@);
        assert(path[0] == path.take(2)[0] && path[1] == path.take(2)[1]);
    }
}

proof fn lemma_slashes_go(home: Seq<char>, slashes: Seq<char>)
    requires
        home.len() > 0 ==> home.last() != '/',
        forall|i: int| 0 <= i < slashes.len() ==> #[trigger] slashes[i] == '/',
    ensures
        crate::text::trim_back(home + slashes, crate::text::CharClass::Slash) == home,
    decreases slashes.len(),
{
    if slashes.len() == 0 {
        assert(home + slashes =~= home);
    } else {
        let e = slashes.drop_last();
        assert forall|i: int| 0 <= i < e.len() implies #[trigger] e[i] == '/' by {
            assert(e[i] == slashes[i]);
        }
        assert((home + slashes).last() == slashes[slashes.len() - 1]);
        assert((home + slashes).drop_last() =~= home + e);
        lemma_slashes_go(home, e);
    }
}

/// The notice of a certificate holds its whole hash, two digits for each byte, in order.
pub proof fn law_notice_holds_the_hash(hash: Seq<u8>)
    ensures
        notice_of_cert(hash) == "rcargod WT self-signed leaf cert sha256="@ + hex_of(hash)
            + " (pin this in clients for production)"@,
{
    crate::laws::project_key::law_hex_is_two_digits(hash);
}

} // verus!
