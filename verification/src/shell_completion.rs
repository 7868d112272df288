//! The watn shell completion: the managed block that loads watn's
//! completions in Bash, Zsh and Fish.
use vstd::prelude::*;

use crate::error::Error;
use crate::shell_shortcut::{build_managed_content, managed_content, Shell};

verus! {

pub const OPEN_MARKER: &'static str = "# >>> watn shell completion >>>";

pub const CLOSE_MARKER: &'static str = "# <<< watn shell completion <<<";

pub open spec fn completion_text(s: Shell) -> Seq<char> {
    match s {
        Shell::Bash => BASH_BLOCK@,
        Shell::Zsh => ZSH_BLOCK@,
        Shell::Fish => FISH_BLOCK@,
    }
}

/// The completion block of a shell.
pub fn completion_block(shell: Shell) -> (s: &'static str)
    ensures
        s@ == completion_text(shell),
{
    match shell {
        Shell::Bash => BASH_BLOCK,
        Shell::Zsh => ZSH_BLOCK,
        Shell::Fish => FISH_BLOCK,
    }
}

/// The startup file `existing` with the completion block of `shell`.
pub fn build_content(shell: Shell, existing: &[u8]) -> (r: Result<Vec<u8>, Error>)
    ensures
        match managed_content(
            existing@,
            vstd::utf8::encode_utf8(OPEN_MARKER@),
            vstd::utf8::encode_utf8(CLOSE_MARKER@),
            vstd::utf8::encode_utf8(completion_text(shell)),
            "shell completion"@,
        ) {
            Ok(b) => r matches Ok(v) && v@ == b,
            Err(m) => r matches Err(Error::ConfigError(x)) && x@ == m,
        },
{
    proof {
        reveal_strlit("# >>> watn shell completion >>>");
        reveal_strlit("# <<< watn shell completion <<<");
    }
    build_managed_content(existing, OPEN_MARKER, CLOSE_MARKER, completion_block(shell), "shell completion")
}

pub const BASH_BLOCK: &'static str = r#"# >>> watn shell completion >>>
if command -v watn >/dev/null 2>&1; then
    source <(command watn completions bash)
fi
# <<< watn shell completion <<<
"#;

pub const ZSH_BLOCK: &'static str = r#"# >>> watn shell completion >>>
if (( $+commands[watn] )); then
    autoload -Uz compinit
    compinit
    source <(command watn completions zsh)
fi
# <<< watn shell completion <<<
"#;

pub const FISH_BLOCK: &'static str = r#"# >>> watn shell completion >>>
if type -q watn
    command watn completions fish | source
end
# <<< watn shell completion <<<
"#;

} // verus!
