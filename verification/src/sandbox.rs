//! The OS sandbox for `bash`: how a command is launched on each platform,
//! and whether its network access is denied there.

use vstd::prelude::*;
use crate::config::SandboxLevel;
use crate::server_install::Os;
use crate::text::strings_view;

verus! {

/// The Seatbelt profile on macOS: everything except network.
pub const SEATBELT_PROFILE: &'static str = "(version 1)(allow default)(deny network*)";

/// Where the network of `bash` is denied by the OS: macOS and Linux, below
/// `full`.
pub open spec fn enforces_network(os: Os, level: SandboxLevel) -> bool {
    (os == Os::Macos || os == Os::Linux) && level != SandboxLevel::Full
}

pub open spec fn backend_name(os: Os) -> Seq<char> {
    if os == Os::Macos {
        "Seatbelt"@
    } else if os == Os::Linux {
        "Landlock (best-effort, needs Linux 6.7+)"@
    } else {
        "path-jail only"@
    }
}

/// Whether OS-level network denial is enforced for bash on this platform/level.
/// (Linux Landlock is best-effort — true here means "attempted/enforced where the
/// kernel supports it", ABI V4+/Linux 6.7.)
pub fn network_enforced(os: Os, level: SandboxLevel) -> (r: bool)
    ensures
        r == enforces_network(os, level),
{
    (os == Os::Macos || os == Os::Linux) && level != SandboxLevel::Full
}

/// Human-readable name of the active OS sandbox backend (for `doctor`).
pub fn backend_label(os: Os) -> (r: &'static str)
    ensures
        r@ == backend_name(os),
{
    if os == Os::Macos {
        "Seatbelt"
    } else if os == Os::Linux {
        "Landlock (best-effort, needs Linux 6.7+)"
    } else {
        "path-jail only"
    }
}

/// How to launch a shell command: the program, its arguments, and whether
/// the Landlock network denial is to be attached to the child.
pub struct ShellCommand {
    pub program: String,
    pub args: Vec<String>,
    pub landlock_deny_network: bool,
}

/// The launch of `command` on a platform at a level: on macOS below `full`
/// through `sandbox-exec` with the Seatbelt profile; on Linux through
/// `/bin/sh` with Landlock denying network below `full`; on Windows through
/// `cmd /C`; elsewhere through `/bin/sh`.
pub open spec fn shell_launch(os: Os, level: SandboxLevel, command: Seq<char>) -> (Seq<char>, Seq<Seq<char>>, bool) {
    if os == Os::Macos && level != SandboxLevel::Full {
        ("/usr/bin/sandbox-exec"@, seq!["-p"@, SEATBELT_PROFILE@, "/bin/sh"@, "-c"@, command], false)
    } else if os == Os::Linux {
        ("/bin/sh"@, seq!["-c"@, command], level != SandboxLevel::Full)
    } else if os == Os::Windows {
        ("cmd"@, seq!["/C"@, command], false)
    } else {
        ("/bin/sh"@, seq!["-c"@, command], false)
    }
}

/// Build the (possibly sandboxed) shell launch for a bash invocation.
/// The caller still sets cwd/stdio.
pub fn bash_command(os: Os, level: SandboxLevel, command: &str) -> (r: ShellCommand)
    ensures
        (r.program@, strings_view(r.args@), r.landlock_deny_network) == shell_launch(os, level, command@),
{
    let c = String::from_str(command);
    let r = if os == Os::Macos && level != SandboxLevel::Full {
        ShellCommand {
            program: String::from_str("/usr/bin/sandbox-exec"),
            args: vec![
                String::from_str("-p"),
                String::from_str(SEATBELT_PROFILE),
                String::from_str("/bin/sh"),
                String::from_str("-c"),
                c,
            ],
            landlock_deny_network: false,
        }
    } else if os == Os::Linux {
        ShellCommand {
            program: String::from_str("/bin/sh"),
            args: vec![String::from_str("-c"), c],
            landlock_deny_network: level != SandboxLevel::Full,
        }
    } else if os == Os::Windows {
        ShellCommand { program: String::from_str("cmd"), args: vec![String::from_str("/C"), c], landlock_deny_network: false }
    } else {
        ShellCommand {
            program: String::from_str("/bin/sh"),
            args: vec![String::from_str("-c"), c],
            landlock_deny_network: false,
        }
    };
    assert(strings_view(r.args@) =~= shell_launch(os, level, command@).1);
    r
}

/// Law: `bash` is cut off from the network exactly where `doctor` says it
/// is: by the Seatbelt profile on macOS, or by Landlock on Linux, at every
/// level below `full`.
pub proof fn law_network_denial_as_reported(os: Os, level: SandboxLevel, command: Seq<char>)
    ensures
        ({
            let (program, args, landlock) = shell_launch(os, level, command);
            (program == "/usr/bin/sandbox-exec"@ && args[1] == SEATBELT_PROFILE@) || landlock
        }) <==> enforces_network(os, level),
{
    reveal_strlit("/usr/bin/sandbox-exec");
    reveal_strlit("/bin/sh");
    reveal_strlit("cmd");
    assert("/bin/sh"@.len() != "/usr/bin/sandbox-exec"@.len());
    assert("cmd"@.len() != "/usr/bin/sandbox-exec"@.len());
}

} // verus!
