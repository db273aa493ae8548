//! Shell dialects, as far as the engine cares about them: whether the
//! dialect's command-chaining syntax can be decomposed into sub-commands.

use vstd::prelude::*;

verus! {

/// A shell dialect. The engine only asks one question of it: can its
/// command chaining be parsed into sub-commands? The POSIX-style shells
/// can; for PowerShell and cmd.exe the chain extractor makes no claim,
/// so allow-listing is disabled for them.
#[derive(Debug, Clone, Copy, PartialEq, Eq, Structural)]
pub enum ShellKind {
    Posix,
    Csh,
    Tcsh,
    Rc,
    Fish,
    Nushell,
    Elvish,
    Xonsh,
    PowerShell,
    Cmd,
}

impl ShellKind {
    /// Whether the dialect's chaining syntax (`;`, `&&`, `||`, `|`,
    /// backgrounding, substitution) can be decomposed by the chain
    /// extractor.
    pub fn supports_posix_chaining(&self) -> (r: bool)
        ensures
            r == self.chaining_supported(),
    {
        match self {
            ShellKind::PowerShell => false,
            ShellKind::Cmd => false,
            _ => true,
        }
    }

    /// Specification twin of [`Self::supports_posix_chaining`].
    pub open spec fn chaining_supported(&self) -> bool {
        !(*self == ShellKind::PowerShell || *self == ShellKind::Cmd)
    }

    /// Display name of the dialect, used in user-facing messages.
    pub fn name(&self) -> (r: &'static str)
        ensures
            r@ == self.name_spec(),
    {
        match self {
            ShellKind::Posix => "POSIX",
            ShellKind::Csh => "csh",
            ShellKind::Tcsh => "tcsh",
            ShellKind::Rc => "rc",
            ShellKind::Fish => "fish",
            ShellKind::Nushell => "nushell",
            ShellKind::Elvish => "elvish",
            ShellKind::Xonsh => "xonsh",
            ShellKind::PowerShell => "PowerShell",
            ShellKind::Cmd => "cmd",
        }
    }

    /// Specification twin of [`Self::name`].
    pub open spec fn name_spec(&self) -> Seq<char> {
        match *self {
            ShellKind::Posix => "POSIX"@,
            ShellKind::Csh => "csh"@,
            ShellKind::Tcsh => "tcsh"@,
            ShellKind::Rc => "rc"@,
            ShellKind::Fish => "fish"@,
            ShellKind::Nushell => "nushell"@,
            ShellKind::Elvish => "elvish"@,
            ShellKind::Xonsh => "xonsh"@,
            ShellKind::PowerShell => "PowerShell"@,
            ShellKind::Cmd => "cmd"@,
        }
    }
}

} // verus!
