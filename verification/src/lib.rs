//! `de`: an inline directory explorer whose state, ordering, filtering,
//! configuration and layout rules are specified and proved with Verus.

use vstd::prelude::*;

pub mod app;
pub mod color;
pub mod config;
pub mod error;
pub mod keys;
pub mod listing;
pub mod order;
pub mod paths;
pub mod screen;
pub mod store;
pub mod terminal;
pub mod text;
pub mod theme;
pub mod toml;

verus! {

/// Shell function for bash and zsh: runs `de` and `cd`s into the directory it prints.
pub const POSIX_SHELL_INIT: &'static str = "de() {
    case \"${1-}\" in
        -h|--help|-V|--version|init|theme)
            command de \"$@\"
            return
            ;;
    esac

    local de_dir
    de_dir=\"$(command de \"$@\")\" || return
    [[ -n \"$de_dir\" ]] && builtin cd -- \"$de_dir\"
}";

/// Shell function for fish with the same behaviour as [`POSIX_SHELL_INIT`].
pub const FISH_SHELL_INIT: &'static str = "function de
    if test (count $argv) -gt 0
        switch $argv[1]
            case -h --help -V --version init theme
                command de $argv
                return
        end
    end

    set --local de_dir (command de $argv)
    or return
    test -n \"$de_dir\"; and cd -- \"$de_dir\"
end";

/// The shell integration script for `shell`: bash and zsh share one script,
/// fish has its own, and every other name has none.
pub fn shell_init(shell: &str) -> (script: Option<&'static str>)
    ensures
        (shell@ == "bash"@ || shell@ == "zsh"@) ==> script == Some(POSIX_SHELL_INIT),
        shell@ == "fish"@ ==> script == Some(FISH_SHELL_INIT),
        !(shell@ == "bash"@ || shell@ == "zsh"@ || shell@ == "fish"@) ==> script is None,
{
    proof {
        reveal_strlit("bash");
        reveal_strlit("zsh");
        reveal_strlit("fish");
        assert("fish"@[0] != "bash"@[0]);
        assert("fish"@.len() != "zsh"@.len());
    }
    if text::str_eq(shell, "bash") || text::str_eq(shell, "zsh") {
        Some(POSIX_SHELL_INIT)
    } else if text::str_eq(shell, "fish") {
        Some(FISH_SHELL_INIT)
    } else {
        None
    }
}

/// A shell that `de init` writes an integration for.
#[derive(Clone, Copy, Debug, PartialEq, Eq, Structural)]
pub enum Shell {
    Bash,
    Zsh,
    Fish,
}

impl Shell {
    /// The shell's name, as `shell_init` takes it.
    pub fn name(self) -> (name: &'static str)
        ensures
            name@ == match self {
                Shell::Bash => "bash"@,
                Shell::Zsh => "zsh"@,
                Shell::Fish => "fish"@,
            },
    {
        match self {
            Shell::Bash => "bash",
            Shell::Zsh => "zsh",
            Shell::Fish => "fish",
        }
    }
}

} // verus!
