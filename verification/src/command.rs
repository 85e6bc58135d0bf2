//! The two launch commands tried for a candidate backend directory.
//!
//! The primary command starts the web server through an external package
//! runner; the secondary is a direct interpreter invocation with equivalent
//! arguments. Both address the same fixed host and port, so the two are
//! functionally interchangeable: the secondary is attempted only when the
//! primary fails to spawn.

use vstd::prelude::*;
use vstd::string::StringExecFns;

verus! {

/// Which of the two launch commands is being attempted.
#[derive(Clone, Copy, Debug, PartialEq, Eq)]
pub enum Launcher {
    /// The package runner invoking the web-server command.
    Primary,
    /// The direct interpreter invocation with equivalent arguments.
    Secondary,
}

/// A fully determined command line: a program name and its arguments. The
/// caller spawns it with the chosen candidate directory as working directory.
pub struct LaunchCommand {
    pub program: String,
    pub args: Vec<String>,
}

/// The program each launcher runs.
pub open spec fn program_of(l: Launcher) -> Seq<char> {
    match l {
        Launcher::Primary => "uv"@,
        Launcher::Secondary => "python"@,
    }
}

/// The argument list each launcher passes: the web-server command for the
/// backend's application, bound to the fixed host and port.
pub open spec fn args_of(l: Launcher) -> Seq<Seq<char>> {
    match l {
        Launcher::Primary => seq![
            "run"@,
            "uvicorn"@,
            "main:app"@,
            "--host"@,
            "127.0.0.1"@,
            "--port"@,
            "8000"@,
        ],
        Launcher::Secondary => seq![
            "-m"@,
            "uvicorn"@,
            "main:app"@,
            "--host"@,
            "127.0.0.1"@,
            "--port"@,
            "8000"@,
        ],
    }
}

/// Build the command line for the given launcher, exactly as specified by
/// `program_of` and `args_of`.
pub fn launch_command(l: Launcher) -> (c: LaunchCommand)
    ensures
        c.program@ == program_of(l),
        c.args@.len() == args_of(l).len(),
        forall|i: int| 0 <= i < c.args@.len() ==> c.args@[i]@ == args_of(l)[i],
{
    let program: String = match l {
        Launcher::Primary => "uv".to_owned(),
        Launcher::Secondary => "python".to_owned(),
    };
    let mut args: Vec<String> = Vec::new();
    match l {
        Launcher::Primary => {
            args.push("run".to_owned());
            args.push("uvicorn".to_owned());
        },
        Launcher::Secondary => {
            args.push("-m".to_owned());
            args.push("uvicorn".to_owned());
        },
    }
    args.push("main:app".to_owned());
    args.push("--host".to_owned());
    args.push("127.0.0.1".to_owned());
    args.push("--port".to_owned());
    args.push("8000".to_owned());
    LaunchCommand { program, args }
}

} // verus!
