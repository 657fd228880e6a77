# rcargo

Offload cargo builds to a remote host: the sources go up with `rsync`, cargo runs there over `ssh`
or in a session with a build daemon, and its output and its exit code come back. The remote tree is
kept from one run to the next, so that `target/` stays warm.

`src/` is a Verus library. It decides: which arguments are whose, what the layers of the
configuration come to, which directory a project has, which commands run and with which quoting,
which lines go over the wire, and what every reply means. Each function's contract says exactly what
it returns, but for `config::user_config_path`, which depends on the machine (and its twin for
tests). The proof functions named `law_*` state what holds across functions, such as that a remote
shell reads back exactly the arguments that were given.

| Module | What it decides |
|---|---|
| `cli` | rcargo's own flags, and what is cargo's |
| `config` | the layers of the configuration and their precedence |
| `project_key` | the remote directory of a tree |
| `run` | the order of a run, from the command line to the exit status |
| `transport` | uploads, builds and artifacts, over `ssh` or a WebTransport session |
| `daemon` | requests, and what is reported of a build |
| `proto`, `json` | the lines on the wire |
| `shell` | quoting, and how a POSIX shell reads it back |
| `text` | trimming, splitting, joining and numbers |

`app/` is the program: it reads files and variables, runs processes and serves streams. Under the
name `rcargod` it is the daemon. Its WebTransport client needs the `tlsfetch-wt` crate and is built
only with the feature `webtransport`.

What is trusted rather than proved is marked in the source and described where it stands:
`String::push`, `Debug` of a list of strings, `dirs::config_dir`, `sha2::Sha256::digest`,
`hex::encode` and `serde_json::to_string` of a string.
