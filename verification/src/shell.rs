//! Shell integration helpers: the supported shells and the change-directory
//! command printed after a switch.

use vstd::prelude::*;
use crate::text;

verus! {

/// The shells the helper scripts can be written for.
#[derive(Debug, Clone, Copy, PartialEq, Eq, Structural)]
pub enum ShellType {
    Bash,
    Zsh,
    Fish,
    PowerShell,
}

impl ShellType {
    /// The shell's conventional name.
    pub fn as_str(&self) -> (r: &'static str)
        ensures
            self is Bash ==> r@ == "bash"@,
            self is Zsh ==> r@ == "zsh"@,
            self is Fish ==> r@ == "fish"@,
            self is PowerShell ==> r@ == "powershell"@,
    {
        match self {
            ShellType::Bash => "bash",
            ShellType::Zsh => "zsh",
            ShellType::Fish => "fish",
            ShellType::PowerShell => "powershell",
        }
    }
}

/// The quoted change-directory command for a worktree path.
pub fn generate_cd_command(path: &str) -> (r: String)
    ensures
        r@ == "cd \""@ + path@ + "\""@,
{
    text::concat3("cd \"", path, "\"")
}

} // verus!
