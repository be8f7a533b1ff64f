//! Command lines for host applications.

use crate::text::{same_text, strings};
use vstd::prelude::*;

verus! {

/// The arguments with which a host starts the application: the configuration first, then the mode,
/// and in plugin mode the output.
pub open spec fn host_command(
    mode: Seq<char>,
    out: Option<Seq<char>>,
    config: Option<Seq<char>>,
) -> Seq<Seq<char>> {
    let head = match config {
        Some(path) => seq!["--config"@, path],
        None => Seq::empty(),
    };
    let tail = match out {
        Some(path) => if mode == "plugin"@ {
            seq!["--out"@, path]
        } else {
            Seq::empty()
        },
        None => Seq::empty(),
    };
    head + seq![mode] + tail
}

/// The arguments with which a host starts the application.
pub fn resolve_host_command(mode: &str, out: Option<&str>, config: Option<&str>) -> (r: Vec<String>)
    ensures
        config is Some ==> r@.len() >= 3 && r@[0]@ == "--config"@ && r@[1]@ == config->0@ && r@[2]@ == mode@,
        config is None ==> r@.len() >= 1 && r@[0]@ == mode@,
        mode@ == "plugin"@ && out is Some ==> r@.len() >= 3 && r@[r@.len() - 2]@ == "--out"@ && r@[r@.len()
            - 1]@ == out->0@,
        mode@ != "plugin"@ || out is None ==> r@.len() == if config is Some {
            3int
        } else {
            1
        },
        strings(r@) == host_command(
            mode@,
            match out {
                Some(path) => Some(path@),
                None => None,
            },
            match config {
                Some(path) => Some(path@),
                None => None,
            },
        ),
{
    let mut args: Vec<String> = Vec::new();
    let ghost head = match config {
        Some(path) => seq!["--config"@, path@],
        None => Seq::empty(),
    };
    if let Some(path) = config {
        args.push("--config".to_owned());
        args.push(path.to_owned());
    }
    assert(strings(args@) =~= head);
    args.push(mode.to_owned());
    assert(strings(args@) =~= head + seq![mode@]);
    if same_text(mode, "plugin") {
        if let Some(path) = out {
            args.push("--out".to_owned());
            args.push(path.to_owned());
            assert(strings(args@) =~= head + seq![mode@] + seq!["--out"@, path@]);
        }
    }
    assert(strings(args@) =~= host_command(
        mode@,
        match out {
            Some(path) => Some(path@),
            None => None,
        },
        match config {
            Some(path) => Some(path@),
            None => None,
        },
    ));
    assert(forall|i: int| 0 <= i < args@.len() ==> strings(args@)[i] == #[trigger] args@[i]@);
    args
}

} // verus!
