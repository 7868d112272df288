//! The watn shell shortcut: the managed block that binds Ctrl-W to watn in
//! Bash, Zsh and Fish, where it goes, and how an existing startup file is
//! rewritten around it. Reading and writing the files is the program's part;
//! the library decides what the new file holds.
use vstd::prelude::*;

use crate::error::Error;
use crate::text::{chars_of, push_str, str_eq, string_from, views_of};

verus! {

pub const OPEN_MARKER: &'static str = "# >>> watn shell shortcut >>>";

pub const CLOSE_MARKER: &'static str = "# <<< watn shell shortcut <<<";

#[derive(Debug, Clone, Copy, PartialEq, Eq, PartialOrd, Ord, Hash, Structural)]
pub enum Shell {
    Bash,
    Zsh,
    Fish,
}

pub open spec fn shell_name(s: Shell) -> Seq<char> {
    match s {
        Shell::Bash => "Bash"@,
        Shell::Zsh => "Zsh"@,
        Shell::Fish => "Fish"@,
    }
}

pub open spec fn shell_lowercase(s: Shell) -> Seq<char> {
    match s {
        Shell::Bash => "bash"@,
        Shell::Zsh => "zsh"@,
        Shell::Fish => "fish"@,
    }
}

pub open spec fn shortcut_block(s: Shell) -> Seq<char> {
    match s {
        Shell::Bash => BASH_BLOCK@,
        Shell::Zsh => ZSH_BLOCK@,
        Shell::Fish => FISH_BLOCK@,
    }
}

/// The shells in their fixed order.
pub open spec fn all_shells() -> Seq<Shell> {
    seq![Shell::Bash, Shell::Zsh, Shell::Fish]
}

impl Shell {
    /// Every shell, in order.
    pub fn all() -> (v: Vec<Shell>)
        ensures
            v@ == all_shells(),
    {
        let mut v: Vec<Shell> = Vec::new();
        v.push(Shell::Bash);
        v.push(Shell::Zsh);
        v.push(Shell::Fish);
        assert(v@ =~= all_shells());
        v
    }

    pub fn name(self) -> (s: &'static str)
        ensures
            s@ == shell_name(self),
    {
        match self {
            Shell::Bash => "Bash",
            Shell::Zsh => "Zsh",
            Shell::Fish => "Fish",
        }
    }

    pub fn lowercase_name(self) -> (s: &'static str)
        ensures
            s@ == shell_lowercase(self),
    {
        match self {
            Shell::Bash => "bash",
            Shell::Zsh => "zsh",
            Shell::Fish => "fish",
        }
    }

    /// The instruction that reloads the startup file `path`.
    pub fn reload_instruction(self, path: &str, home: &str) -> (s: String)
        ensures
            s@ == "Run: source "@ + home_relative(path@, home@),
    {
        let mut s = String::from_str("Run: source ");
        let shown = display_home_path(path, home);
        push_str(&mut s, shown.as_str());
        s
    }

    pub fn generated_block(self) -> (s: &'static str)
        ensures
            s@ == shortcut_block(self),
    {
        match self {
            Shell::Bash => BASH_BLOCK,
            Shell::Zsh => ZSH_BLOCK,
            Shell::Fish => FISH_BLOCK,
        }
    }
}

pub const BASH_BLOCK: &'static str = r#"# >>> watn shell shortcut >>>
_watn_widget() {
    local question="$READLINE_LINE"
    local result

    if [[ -z $question ]]; then
        return
    fi

    result=$(command watn -- "$question")
    local status=$?
    if [[ $status -eq 0 ]]; then
        while [[ $result == *$'\r' || $result == *$'\n' ]]; do
            result=${result:0:${#result}-1}
        done
        if [[ -n $result ]]; then
            READLINE_LINE=$result
            READLINE_POINT=${#READLINE_LINE}
        fi
    fi
}

bind -x '"\C-w":_watn_widget'
# <<< watn shell shortcut <<<
"#;

pub const ZSH_BLOCK: &'static str = r#"# >>> watn shell shortcut >>>
_watn_widget() {
    local question="$BUFFER"
    local result

    if [[ -z $question ]]; then
        zle redisplay
        return
    fi

    if result=$(command watn -- "$question"); then
        while [[ $result == *$'\r' || $result == *$'\n' ]]; do
            result=${result%$'\r'}
            result=${result%$'\n'}
        done
        if [[ -n $result ]]; then
            BUFFER=$result
            CURSOR=${#BUFFER}
        fi
    fi

    zle redisplay
}

zle -N _watn_widget
bindkey '^W' _watn_widget
bindkey -M viins '^W' _watn_widget
# <<< watn shell shortcut <<<
"#;

pub const FISH_BLOCK: &'static str = r#"# >>> watn shell shortcut >>>
function _watn_widget
    set -l question (commandline)
    if test -z "$question"
        commandline -f repaint
        return
    end

    set -l result (command watn -- "$question" | string collect)
    set -l status_code $pipestatus[1]
    if test $status_code -eq 0
        set result (string replace -r '[\r\n]+$' '' -- "$result")
        if test -n "$result"
            commandline -r -- "$result"
        end
    end
    commandline -f repaint
end

bind \cw _watn_widget
bind -M insert \cw _watn_widget
# <<< watn shell shortcut <<<
"#;

/// `s` without trailing slashes, a lone root kept.
pub open spec fn trimmed_dir(s: Seq<char>) -> Seq<char>
    decreases s.len(),
{
    if s.len() > 1 && s.last() == '/' {
        trimmed_dir(s.drop_last())
    } else {
        s
    }
}

/// A path shown relative to home as `~/...` when it lies under home.
pub open spec fn home_relative(path: Seq<char>, home: Seq<char>) -> Seq<char> {
    let h = trimmed_dir(home);
    if h.len() > 0 && path == h {
        "~/"@
    } else if h == "/"@ && path.len() >= 1 && path[0] == '/' {
        "~/"@ + path.skip(1)
    } else if h.len() > 0 && path.len() > h.len() && path.take(h.len() as int) == h && path[h.len() as int] == '/' {
        "~/"@ + path.skip((h.len() + 1) as int)
    } else {
        path
    }
}

fn trim_dir(s: &Vec<char>) -> (r: usize)
    ensures
        r <= s@.len(),
        s@.take(r as int) == trimmed_dir(s@),
{
    let mut end = s.len();
    assert(s@.take(end as int) =~= s@);
    while end > 1 && s[end - 1] == '/'
        invariant
            end <= s@.len(),
            trimmed_dir(s@.take(end as int)) == trimmed_dir(s@),
        decreases end,
    {
        assert(s@.take(end as int).drop_last() =~= s@.take(end - 1));
        end -= 1;
    }
    end
}

fn display_home_path(path: &str, home: &str) -> (r: String)
    ensures
        r@ == home_relative(path@, home@),
{
    let p = chars_of(path);
    let hv = chars_of(home);
    let hl = trim_dir(&hv);
    let h = string_from(hv.as_slice(), 0, hl);
    assert(h@ =~= hv@.take(hl as int));
    let root = str_eq(h.as_str(), "/");
    if hl > 0 && str_eq(path, h.as_str()) {
        return String::from_str("~/");
    }
    if root && p.len() >= 1 && p[0] == '/' {
        let mut s = String::from_str("~/");
        let rest = string_from(p.as_slice(), 1, p.len());
        assert(rest@ =~= p@.skip(1));
        push_str(&mut s, rest.as_str());
        return s;
    }
    if hl > 0 && p.len() > hl && p[hl] == '/' {
        let head = string_from(p.as_slice(), 0, hl);
        assert(head@ =~= p@.take(hl as int));
        if str_eq(head.as_str(), h.as_str()) {
            let mut s = String::from_str("~/");
            let rest = string_from(p.as_slice(), hl + 1, p.len());
            assert(rest@ =~= p@.skip(hl + 1));
            push_str(&mut s, rest.as_str());
            return s;
        }
    }
    String::from_str(path)
}

/// The environment that decides where startup files are.
#[derive(Debug, PartialEq, Eq)]
pub struct ShellEnvironment {
    pub home: String,
    pub xdg_config_home: Option<String>,
    pub shell: Option<String>,
}

/// Whether a path is absolute.
pub open spec fn absolute(p: Seq<char>) -> bool {
    p.len() > 0 && p[0] == '/'
}

/// `Path::join` with a relative part.
pub open spec fn joined(base: Seq<char>, part: Seq<char>) -> Seq<char> {
    if base.len() > 0 && base.last() == '/' {
        base + part
    } else if base.len() == 0 {
        part
    } else {
        base + "/"@ + part
    }
}

pub(crate) fn join_path(base: &str, part: &str) -> (r: String)
    ensures
        r@ == joined(base@, part@),
{
    let b = chars_of(base);
    if b.len() == 0 {
        return String::from_str(part);
    }
    let mut s = String::from_str(base);
    if b[b.len() - 1] != '/' {
        push_str(&mut s, "/");
    }
    push_str(&mut s, part);
    s
}

/// Where a shell's startup file is, or why it cannot be found: the message
/// of the error.
pub open spec fn target_for(env: ShellEnvironment, shell: Shell, label: Seq<char>) -> Result<Seq<char>, Seq<char>> {
    let home = env.home@;
    if !absolute(home) {
        Err("cannot resolve "@ + shell_name(shell) + " "@ + label + " target: HOME must be an absolute path"@)
    } else {
        match shell {
            Shell::Bash => Ok(joined(home, ".bashrc"@)),
            Shell::Zsh => Ok(joined(home, ".zshrc"@)),
            Shell::Fish => {
                let config_home = match env.xdg_config_home {
                    Some(x) => if x@.len() > 0 {
                        x@
                    } else {
                        joined(home, ".config"@)
                    },
                    None => joined(home, ".config"@),
                };
                if !absolute(config_home) {
                    Err("cannot resolve Fish "@ + label + " target: XDG_CONFIG_HOME must be an absolute path"@)
                } else {
                    Ok(joined(joined(config_home, "fish"@), "config.fish"@))
                }
            },
        }
    }
}

pub open spec fn path_result(r: Result<String, Error>, s: Result<Seq<char>, Seq<char>>) -> bool {
    match s {
        Ok(p) => r matches Ok(x) && x@ == p,
        Err(m) => r matches Err(Error::ConfigError(x)) && x@ == m,
    }
}

/// The last component of a path, if it names a file.
pub open spec fn file_name(p: Seq<char>) -> Option<Seq<char>> {
    let t = trimmed_dir(p);
    let name = match crate::text::rfind_char(t, '/') {
        Some(k) => t.skip(k + 1),
        None => t,
    };
    if name.len() == 0 || name == "."@ || name == ".."@ {
        None
    } else {
        Some(name)
    }
}

/// The shells named by `$SHELL`.
pub open spec fn detected(shell: Option<Seq<char>>) -> Seq<Shell> {
    match shell {
        Some(v) => match file_name(v) {
            Some(n) => all_shells().filter(|s: Shell| shell_lowercase(s) == n),
            None => seq![],
        },
        None => seq![],
    }
}

impl ShellEnvironment {
    /// Where a shell's startup file is for a managed block called `label`.
    pub fn target_path_for(&self, shell: Shell, label: &str) -> (r: Result<String, Error>)
        ensures
            path_result(r, target_for(*self, shell, label@)),
    {
        let home = chars_of(self.home.as_str());
        if home.len() == 0 || home[0] != '/' {
            let mut m = String::from_str("cannot resolve ");
            push_str(&mut m, shell.name());
            push_str(&mut m, " ");
            push_str(&mut m, label);
            push_str(&mut m, " target: HOME must be an absolute path");
            return Err(Error::ConfigError(m));
        }
        match shell {
            Shell::Bash => Ok(join_path(self.home.as_str(), ".bashrc")),
            Shell::Zsh => Ok(join_path(self.home.as_str(), ".zshrc")),
            Shell::Fish => {
                let config_home = match &self.xdg_config_home {
                    Some(x) => {
                        if chars_of(x.as_str()).len() > 0 {
                            x.clone()
                        } else {
                            join_path(self.home.as_str(), ".config")
                        }
                    },
                    None => join_path(self.home.as_str(), ".config"),
                };
                let c = chars_of(config_home.as_str());
                if c.len() == 0 || c[0] != '/' {
                    let mut m = String::from_str("cannot resolve Fish ");
                    push_str(&mut m, label);
                    push_str(&mut m, " target: XDG_CONFIG_HOME must be an absolute path");
                    return Err(Error::ConfigError(m));
                }
                let fish = join_path(config_home.as_str(), "fish");
                Ok(join_path(fish.as_str(), "config.fish"))
            },
        }
    }

    /// Where a shell's startup file is.
    pub fn target_path(&self, shell: Shell) -> (r: Result<String, Error>)
        ensures
            path_result(r, target_for(*self, shell, "shell shortcut"@)),
    {
        self.target_path_for(shell, "shell shortcut")
    }

    /// The shells that `$SHELL` names.
    pub fn detected_shells(&self) -> (r: Vec<Shell>)
        ensures
            r@ == detected(crate::review::response::opt_view(self.shell)),
    {
        let value = match &self.shell {
            Some(v) => v,
            None => {
                let r: Vec<Shell> = Vec::new();
                assert(r@ =~= Seq::<Shell>::empty());
                return r;
            },
        };
        let p = chars_of(value.as_str());
        let end = trim_dir(&p);
        let t = string_from(p.as_slice(), 0, end);
        let tv = chars_of(t.as_str());
        assert(tv@ =~= trimmed_dir(value@));
        let start: usize = match crate::text::rfind_char_in(tv.as_slice(), '/') {
            Some(k) => k + 1,
            None => 0,
        };
        let name = string_from(tv.as_slice(), start, tv.len());
        proof {
            if start == 0 {
                assert(tv@.skip(0) =~= tv@);
            }
        }
        assert(name@ =~= tv@.skip(start as int));
        let mut r: Vec<Shell> = Vec::new();
        if chars_of(name.as_str()).len() == 0 || str_eq(name.as_str(), ".") || str_eq(name.as_str(), "..") {
            assert(r@ =~= Seq::<Shell>::empty());
            return r;
        }
        let all = Shell::all();
        let mut k: usize = 0;
        while k < all.len()
            invariant
                k <= all@.len(),
                all@ == all_shells(),
                r@ == all_shells().take(k as int).filter(|s: Shell| shell_lowercase(s) == name@),
            decreases all@.len() - k,
        {
            let ghost before = r@;
            assert(all_shells().take(k + 1).drop_last() =~= all_shells().take(k as int));
            reveal_with_fuel(Seq::filter, 1);
            if str_eq(all[k].lowercase_name(), name.as_str()) {
                r.push(all[k]);
            }
            assert(r@ =~= all_shells().take(k + 1).filter(|s: Shell| shell_lowercase(s) == name@));
            k += 1;
        }
        assert(all_shells().take(3) =~= all_shells());
        r
    }
}

/// The shells to install for a selection: each selected shell once, in the
/// fixed order.
pub open spec fn install_order(shells: Seq<Shell>) -> Seq<Shell> {
    all_shells().filter(|s: Shell| shells.contains(s))
}

fn contains_shell(shells: &[Shell], s: Shell) -> (b: bool)
    ensures
        b == shells@.contains(s),
{
    let mut k: usize = 0;
    while k < shells.len()
        invariant
            k <= shells@.len(),
            forall|j: int| 0 <= j < k ==> shells@[j] != s,
        decreases shells@.len() - k,
    {
        if shells[k] == s {
            assert(shells@[k as int] == s);
            return true;
        }
        k += 1;
    }
    false
}

pub fn selected_in_order(shells: &[Shell]) -> (r: Vec<Shell>)
    ensures
        r@ == install_order(shells@),
{
    let all = Shell::all();
    let mut r: Vec<Shell> = Vec::new();
    let mut k: usize = 0;
    while k < all.len()
        invariant
            k <= all@.len(),
            all@ == all_shells(),
            r@ == all_shells().take(k as int).filter(|s: Shell| shells@.contains(s)),
        decreases all@.len() - k,
    {
        assert(all_shells().take(k + 1).drop_last() =~= all_shells().take(k as int));
        reveal_with_fuel(Seq::filter, 1);
        if contains_shell(shells, all[k]) {
            r.push(all[k]);
        }
        assert(r@ =~= all_shells().take(k + 1).filter(|s: Shell| shells@.contains(s)));
        k += 1;
    }
    assert(all_shells().take(3) =~= all_shells());
    r
}

#[derive(Debug, PartialEq, Eq)]
pub struct TargetResult {
    pub shell: Shell,
    pub path: Option<String>,
    pub success: bool,
    pub message: String,
    pub reload: Option<String>,
}

impl Clone for TargetResult {
    fn clone(&self) -> (r: Self)
        ensures
            r.shell == self.shell,
            crate::review::response::opt_view(r.path) == crate::review::response::opt_view(self.path),
            r.success == self.success,
            r.message@ == self.message@,
            crate::review::response::opt_view(r.reload) == crate::review::response::opt_view(self.reload),
    {
        TargetResult {
            shell: self.shell,
            path: crate::review::response::clone_opt(&self.path),
            success: self.success,
            message: self.message.clone(),
            reload: crate::review::response::clone_opt(&self.reload),
        }
    }
}

/// The result for a shell whose startup file was written.
pub fn configured_target(shell: Shell, path: String, home: &str) -> (r: TargetResult)
    ensures
        r.shell == shell,
        r.success,
        r.path matches Some(p) && p@ == path@,
        r.message@ == "Configured "@ + shell_name(shell),
        r.reload matches Some(x) && x@ == "Run: source "@ + home_relative(path@, home@),
{
    let reload = shell.reload_instruction(path.as_str(), home);
    let mut message = String::from_str("Configured ");
    push_str(&mut message, shell.name());
    TargetResult { shell, path: Some(path), success: true, message, reload: Some(reload) }
}

/// The result for a shell that could not be configured.
pub fn failed_target(shell: Shell, path: Option<String>, error: &Error) -> (r: TargetResult)
    ensures
        r.shell == shell,
        !r.success,
        crate::review::response::opt_view(r.path) == crate::review::response::opt_view(path),
        r.reload is None,
        match error {
            Error::IoError(_) => true,
            _ => r.message@ == crate::error::message_prefix(error),
        },
{
    TargetResult { shell, path, success: false, message: error.message(), reload: None }
}

/// A target result as plain values: shell, path, success, message, reload.
pub open spec fn target_view(t: TargetResult) -> (Shell, Option<Seq<char>>, bool, Seq<char>, Option<Seq<char>>) {
    (t.shell, crate::review::response::opt_view(t.path), t.success, t.message@, crate::review::response::opt_view(t.reload))
}

pub open spec fn targets_view(v: Seq<TargetResult>) -> Seq<(Shell, Option<Seq<char>>, bool, Seq<char>, Option<Seq<char>>)> {
    v.map_values(|t: TargetResult| target_view(t))
}

/// The results whose success is `success`, in order.
pub open spec fn targets_with(
    v: Seq<(Shell, Option<Seq<char>>, bool, Seq<char>, Option<Seq<char>>)>,
    success: bool,
) -> Seq<(Shell, Option<Seq<char>>, bool, Seq<char>, Option<Seq<char>>)>
    decreases v.len(),
{
    if v.len() == 0 {
        seq![]
    } else if v.last().2 == success {
        targets_with(v.drop_last(), success).push(v.last())
    } else {
        targets_with(v.drop_last(), success)
    }
}

#[derive(Debug, PartialEq, Eq)]
pub struct InstallReport {
    pub results: Vec<TargetResult>,
}

impl Default for InstallReport {
    fn default() -> (r: Self)
        ensures
            r.results@.len() == 0,
    {
        InstallReport { results: Vec::new() }
    }
}

pub open spec fn failed_messages(results: Seq<TargetResult>) -> Seq<Seq<char>>
    decreases results.len(),
{
    if results.len() == 0 {
        seq![]
    } else {
        let front = failed_messages(results.drop_last());
        if results.last().success {
            front
        } else {
            front.push(results.last().message@)
        }
    }
}

impl InstallReport {
    fn select(&self, success: bool) -> (r: Vec<TargetResult>)
        ensures
            targets_view(r@) == targets_with(targets_view(self.results@), success),
    {
        let mut r: Vec<TargetResult> = Vec::new();
        let mut k: usize = 0;
        while k < self.results.len()
            invariant
                k <= self.results@.len(),
                targets_view(r@) == targets_with(targets_view(self.results@).take(k as int), success),
            decreases self.results@.len() - k,
        {
            let ghost prefix = targets_view(self.results@).take(k + 1);
            assert(prefix.drop_last() =~= targets_view(self.results@).take(k as int));
            assert(prefix.last() == target_view(self.results@[k as int]));
            if self.results[k].success == success {
                let ghost before = r@;
                r.push(self.results[k].clone());
                assert(targets_view(r@) =~= targets_view(before).push(target_view(self.results@[k as int])));
            }
            k += 1;
        }
        assert(targets_view(self.results@).take(self.results@.len() as int) =~= targets_view(self.results@));
        r
    }

    /// The targets that could not be configured, in order.
    pub fn failures(&self) -> (r: Vec<TargetResult>)
        ensures
            targets_view(r@) == targets_with(targets_view(self.results@), false),
    {
        self.select(false)
    }

    /// The targets that were configured, in order.
    pub fn successes(&self) -> (r: Vec<TargetResult>)
        ensures
            targets_view(r@) == targets_with(targets_view(self.results@), true),
    {
        self.select(true)
    }

    pub fn is_success(&self) -> (b: bool)
        ensures
            b == forall|k: int| 0 <= k < self.results@.len() ==> (#[trigger] self.results@[k]).success,
    {
        let mut k: usize = 0;
        while k < self.results.len()
            invariant
                k <= self.results@.len(),
                forall|j: int| 0 <= j < k ==> (#[trigger] self.results@[j]).success,
            decreases self.results@.len() - k,
        {
            if !self.results[k].success {
                return false;
            }
            k += 1;
        }
        true
    }

    /// One error naming every failed target, or `None` when all succeeded.
    pub fn aggregate_error(&self) -> (r: Option<Error>)
        ensures
            match r {
                Some(e) => failed_messages(self.results@).len() > 0 && (e matches Error::ConfigError(m)
                    && m@ == "shell shortcut installation failed: "@ + crate::text::join(
                    failed_messages(self.results@),
                    "; "@,
                )),
                None => failed_messages(self.results@).len() == 0,
            },
    {
        let mut messages: Vec<String> = Vec::new();
        let mut k: usize = 0;
        assert(self.results@.take(0) =~= Seq::<TargetResult>::empty());
        assert(views_of(messages@) =~= Seq::<Seq<char>>::empty());
        while k < self.results.len()
            invariant
                k <= self.results@.len(),
                views_of(messages@) == failed_messages(self.results@.take(k as int)),
            decreases self.results@.len() - k,
        {
            assert(self.results@.take(k + 1).drop_last() =~= self.results@.take(k as int));
            assert(self.results@.take(k + 1).last() == self.results@[k as int]);
            if !self.results[k].success {
                let ghost before = messages@;
                messages.push(self.results[k].message.clone());
                assert(views_of(messages@) =~= views_of(before).push(self.results@[k as int].message@));
            }
            k += 1;
        }
        assert(self.results@.take(self.results@.len() as int) =~= self.results@);
        if messages.len() == 0 {
            return None;
        }
        let joined = crate::text::join_strings(messages.as_slice(), "; ");
        let mut m = String::from_str("shell shortcut installation failed: ");
        push_str(&mut m, joined.as_str());
        Some(Error::ConfigError(m))
    }
}

/// A failed target means an aggregate error, and only then.
pub proof fn aggregate_error_iff_failure(results: Seq<TargetResult>)
    ensures
        (failed_messages(results).len() == 0) == forall|k: int| 0 <= k < results.len() ==> (#[trigger] results[k]).success,
    decreases results.len(),
{
    if results.len() > 0 {
        aggregate_error_iff_failure(results.drop_last());
        if !results.last().success {
            assert(!results[results.len() - 1].success);
        } else {
            assert forall|k: int| 0 <= k < results.len() - 1 implies (#[trigger] results[k]).success == results.drop_last()[k].success by {}
        }
    }
}


// ---------------------------------------------------------------------------
// The managed block
// ---------------------------------------------------------------------------

/// `m` occurs in `c` at `i`.
pub open spec fn window_at(c: Seq<u8>, m: Seq<u8>, i: int) -> bool {
    0 <= i && i + m.len() <= c.len() && c.subrange(i, i + m.len()) == m
}

/// The number of occurrences of `m` in `c` at `i` or later.
pub open spec fn count_from(c: Seq<u8>, m: Seq<u8>, i: int) -> nat
    decreases c.len() + 1 - i,
{
    if i < 0 || i + m.len() > c.len() {
        0
    } else {
        (if window_at(c, m, i) {
            1nat
        } else {
            0nat
        }) + count_from(c, m, i + 1)
    }
}

/// The first occurrence of `m` in `c` at `i` or later.
pub open spec fn first_from(c: Seq<u8>, m: Seq<u8>, i: int) -> Option<int>
    decreases c.len() + 1 - i,
{
    if i < 0 || i + m.len() > c.len() {
        None
    } else if window_at(c, m, i) {
        Some(i)
    } else {
        first_from(c, m, i + 1)
    }
}

pub open spec fn malformed_count(label: Seq<char>, opening: nat, closing: nat) -> Seq<char> {
    "malformed watn "@ + label + " markers: expected zero markers or one ordered pair, found "@
        + crate::text::decimal_text(opening) + " opening and "@ + crate::text::decimal_text(closing)
        + " closing markers"@
}

pub open spec fn malformed_order(label: Seq<char>) -> Seq<char> {
    "malformed watn "@ + label + " markers: closing marker precedes opening marker"@
}

/// A startup file with the managed block: appended (after a line break when
/// the file does not end with one) when the file has no markers; put in
/// place of the marked block when it has exactly one ordered pair; otherwise
/// an error names what is wrong.
pub open spec fn managed_content(
    existing: Seq<u8>,
    open: Seq<u8>,
    close: Seq<u8>,
    block: Seq<u8>,
    label: Seq<char>,
) -> Result<Seq<u8>, Seq<char>> {
    let o = count_from(existing, open, 0);
    let c = count_from(existing, close, 0);
    if o == 0 && c == 0 {
        Ok(
            (if existing.len() > 0 && existing.last() != 10u8 {
                existing.push(10u8)
            } else {
                existing
            }) + block,
        )
    } else if o != 1 || c != 1 {
        Err(malformed_count(label, o, c))
    } else {
        let op = first_from(existing, open, 0)->0;
        let cp = first_from(existing, close, 0)->0;
        if cp < op {
            Err(malformed_order(label))
        } else {
            Ok(existing.take(op) + block + existing.skip(cp + close.len()))
        }
    }
}

fn window_matches(c: &[u8], i: usize, m: &[u8]) -> (b: bool)
    requires
        i + m@.len() <= c@.len(),
    ensures
        b == window_at(c@, m@, i as int),
{
    let cl = c.len();
    let mut k: usize = 0;
    while k < m.len()
        invariant
            i + m@.len() <= c@.len(),
            cl == c@.len(),
            k <= m@.len(),
            forall|j: int| 0 <= j < k ==> c@[i + j] == m@[j],
        decreases m@.len() - k,
    {
        if c[i + k] != m[k] {
            assert(c@.subrange(i as int, i + m@.len())[k as int] != m@[k as int]);
            return false;
        }
        k += 1;
    }
    assert(c@.subrange(i as int, i + m@.len()) =~= m@);
    true
}

proof fn lemma_first_some(c: Seq<u8>, m: Seq<u8>, i: int)
    requires
        0 <= i,
        count_from(c, m, i) > 0,
    ensures
        first_from(c, m, i) matches Some(k) && i <= k && k + m.len() <= c.len(),
    decreases c.len() + 1 - i,
{
    if !window_at(c, m, i) {
        lemma_first_some(c, m, i + 1);
    }
}

proof fn lemma_bytes_nonempty(s: Seq<char>)
    requires
        s.len() > 0,
    ensures
        vstd::utf8::encode_utf8(s).len() > 0,
{
    assert(vstd::utf8::encode_scalar(s[0] as u32).len() >= 1);
}

/// The number of occurrences of `m` in `c`, and the first one.
fn scan_marker(c: &[u8], m: &[u8]) -> (r: (usize, Option<usize>))
    requires
        m@.len() > 0,
    ensures
        r.0 as nat == count_from(c@, m@, 0),
        match r.1 {
            Some(p) => first_from(c@, m@, 0) == Some(p as int),
            None => first_from(c@, m@, 0) is None,
        },
{
    if m.len() > c.len() {
        return (0, None);
    }
    let cl = c.len();
    let last = c.len() - m.len();
    let mut count: usize = 0;
    let mut first: Option<usize> = None;
    let mut i: usize = last + 1;
    while i > 0
        invariant
            i <= last + 1,
            last + m@.len() == c@.len(),
            m@.len() > 0,
            count <= last + 1 - i,
            cl == c@.len(),
            (count as nat) == count_from(c@, m@, i as int),
            match first {
                Some(p) => first_from(c@, m@, i as int) == Some(p as int),
                None => first_from(c@, m@, i as int) is None,
            },
        decreases i,
    {
        i -= 1;
        if window_matches(c, i, m) {
            count = count + 1;
            first = Some(i);
        }
    }
    (count, first)
}

/// The startup file `existing` with the block `block` managed between the
/// markers `open` and `close`; `label` names the block in errors.
pub fn build_managed_content(existing: &[u8], open: &str, close: &str, block: &str, label: &str) -> (r: Result<Vec<u8>, Error>)
    requires
        open@.len() > 0,
        close@.len() > 0,
    ensures
        match managed_content(existing@, vstd::utf8::encode_utf8(open@), vstd::utf8::encode_utf8(close@), vstd::utf8::encode_utf8(block@), label@) {
            Ok(b) => r matches Ok(v) && v@ == b,
            Err(m) => r matches Err(Error::ConfigError(x)) && x@ == m,
        },
{
    let open_bytes = open.as_bytes();
    let close_bytes = close.as_bytes();
    let block_bytes = block.as_bytes();
    proof {
        lemma_bytes_nonempty(open@);
        lemma_bytes_nonempty(close@);
    }
    let (open_count, open_at) = scan_marker(existing, open_bytes);
    let (close_count, close_at) = scan_marker(existing, close_bytes);
    if open_count == 0 && close_count == 0 {
        let mut result: Vec<u8> = Vec::new();
        let mut k: usize = 0;
        while k < existing.len()
            invariant
                k <= existing@.len(),
                result@ == existing@.take(k as int),
            decreases existing@.len() - k,
        {
            result.push(existing[k]);
            assert(existing@.take(k + 1) =~= existing@.take(k as int).push(existing@[k as int]));
            k += 1;
        }
        assert(existing@.take(existing@.len() as int) =~= existing@);
        if existing.len() > 0 && existing[existing.len() - 1] != 10u8 {
            result.push(10u8);
        }
        let ghost before = result@;
        let mut j: usize = 0;
        while j < block_bytes.len()
            invariant
                j <= block_bytes@.len(),
                result@ == before + block_bytes@.take(j as int),
            decreases block_bytes@.len() - j,
        {
            result.push(block_bytes[j]);
            assert(block_bytes@.take(j + 1) =~= block_bytes@.take(j as int).push(block_bytes@[j as int]));
            j += 1;
        }
        assert(block_bytes@.take(block_bytes@.len() as int) =~= block_bytes@);
        return Ok(result);
    }
    if open_count != 1 || close_count != 1 {
        let mut m = String::from_str("malformed watn ");
        push_str(&mut m, label);
        push_str(&mut m, " markers: expected zero markers or one ordered pair, found ");
        push_str(&mut m, crate::text::decimal(open_count as u64).as_str());
        push_str(&mut m, " opening and ");
        push_str(&mut m, crate::text::decimal(close_count as u64).as_str());
        push_str(&mut m, " closing markers");
        return Err(Error::ConfigError(m));
    }
    proof {
        lemma_first_some(existing@, open_bytes@, 0);
        lemma_first_some(existing@, close_bytes@, 0);
    }
    let op = match open_at {
        Some(p) => p,
        None => 0,
    };
    let cp = match close_at {
        Some(p) => p,
        None => 0,
    };
    if cp < op {
        let mut m = String::from_str("malformed watn ");
        push_str(&mut m, label);
        push_str(&mut m, " markers: closing marker precedes opening marker");
        return Err(Error::ConfigError(m));
    }
    let existing_len = existing.len();
    assert(cp + close_bytes@.len() <= existing@.len());
    let close_end = cp + close_bytes.len();
    let mut result: Vec<u8> = Vec::new();
    let mut k: usize = 0;
    while k < op
        invariant
            k <= op,
            op <= existing@.len(),
            result@ == existing@.take(k as int),
        decreases op - k,
    {
        result.push(existing[k]);
        assert(existing@.take(k + 1) =~= existing@.take(k as int).push(existing@[k as int]));
        k += 1;
    }
    let ghost before = result@;
    let mut j: usize = 0;
    while j < block_bytes.len()
        invariant
            j <= block_bytes@.len(),
            result@ == before + block_bytes@.take(j as int),
        decreases block_bytes@.len() - j,
    {
        result.push(block_bytes[j]);
        assert(block_bytes@.take(j + 1) =~= block_bytes@.take(j as int).push(block_bytes@[j as int]));
        j += 1;
    }
    assert(block_bytes@.take(block_bytes@.len() as int) =~= block_bytes@);
    let ghost middle = result@;
    let mut t: usize = close_end;
    while t < existing.len()
        invariant
            close_end <= t <= existing@.len(),
            result@ == middle + existing@.subrange(close_end as int, t as int),
        decreases existing@.len() - t,
    {
        result.push(existing[t]);
        assert(existing@.subrange(close_end as int, t + 1) =~= existing@.subrange(close_end as int, t as int).push(existing@[t as int]));
        t += 1;
    }
    assert(existing@.subrange(close_end as int, existing@.len() as int) =~= existing@.skip(close_end as int));
    Ok(result)
}

/// The startup file `existing` with the shell shortcut block of `shell`.
pub fn build_content(shell: Shell, existing: &[u8]) -> (r: Result<Vec<u8>, Error>)
    ensures
        match managed_content(
            existing@,
            vstd::utf8::encode_utf8(OPEN_MARKER@),
            vstd::utf8::encode_utf8(CLOSE_MARKER@),
            vstd::utf8::encode_utf8(shortcut_block(shell)),
            "shell shortcut"@,
        ) {
            Ok(b) => r matches Ok(v) && v@ == b,
            Err(m) => r matches Err(Error::ConfigError(x)) && x@ == m,
        },
{
    proof {
        reveal_strlit("# >>> watn shell shortcut >>>");
        reveal_strlit("# <<< watn shell shortcut <<<");
    }
    build_managed_content(existing, OPEN_MARKER, CLOSE_MARKER, shell.generated_block(), "shell shortcut")
}


/// Whether a startup file holds a managed block: its opening marker occurs.
pub fn has_managed_block(existing: &[u8], open: &str) -> (b: bool)
    requires
        open@.len() > 0,
    ensures
        b == (count_from(existing@, vstd::utf8::encode_utf8(open@), 0) > 0),
{
    proof {
        lemma_bytes_nonempty(open@);
    }
    let (count, _) = scan_marker(existing, open.as_bytes());
    count > 0
}


/// The error about a shell's startup file: the shell, the block's label,
/// the path and the reason.
pub fn target_error(shell: Shell, label: &str, path: &str, reason: &str) -> (e: Error)
    ensures
        e matches Error::ConfigError(m) && m@ == shell_name(shell) + " "@ + label@ + " target "@ + path@ + ": "@
            + reason@,
{
    let mut m = String::from_str(shell.name());
    push_str(&mut m, " ");
    push_str(&mut m, label);
    push_str(&mut m, " target ");
    push_str(&mut m, path);
    push_str(&mut m, ": ");
    push_str(&mut m, reason);
    Error::ConfigError(m)
}

// ---------------------------------------------------------------------------
// A managed block stays one block
// ---------------------------------------------------------------------------

/// `m` holds the byte `b` nowhere but, perhaps, at its start.
pub open spec fn only_leading(m: Seq<u8>, b: u8) -> bool {
    forall|k: int| 0 < k < m.len() ==> m[k] != b
}

/// A block that its markers can manage: both markers are non-empty and
/// hold no line break, the opening marker's first byte occurs in neither
/// marker but at its start, and the block is the opening marker, text, the
/// closing marker and a line break, with each marker in it once.
pub open spec fn manageable_block(open: Seq<u8>, close: Seq<u8>, block: Seq<u8>) -> bool {
    &&& open.len() > 0
    &&& close.len() > 0
    &&& !open.contains(10u8)
    &&& !close.contains(10u8)
    &&& only_leading(open, open[0])
    &&& only_leading(close, open[0])
    &&& block.len() >= open.len() + close.len() + 1
    &&& block.take(open.len() as int) == open
    &&& block.last() == 10u8
    &&& block.subrange(block.len() - 1 - close.len(), block.len() - 1) == close
    &&& count_from(block, open, 0) == 1
    &&& count_from(block, close, 0) == 1
}

proof fn lemma_window_shift(a: Seq<u8>, b: Seq<u8>, m: Seq<u8>, i: int)
    requires
        i >= a.len(),
    ensures
        window_at(a + b, m, i) == window_at(b, m, i - a.len()),
{
    if window_at(b, m, i - a.len()) {
        assert((a + b).subrange(i, i + m.len()) =~= b.subrange(i - a.len(), i - a.len() + m.len()));
    }
    if window_at(a + b, m, i) {
        assert((a + b).subrange(i, i + m.len()) =~= b.subrange(i - a.len(), i - a.len() + m.len()));
    }
}

proof fn lemma_window_prefix(a: Seq<u8>, b: Seq<u8>, m: Seq<u8>, i: int)
    requires
        0 <= i,
        i + m.len() <= a.len(),
    ensures
        window_at(a + b, m, i) == window_at(a, m, i),
{
    assert((a + b).subrange(i, i + m.len()) =~= a.subrange(i, i + m.len()));
}

proof fn lemma_count_shift(a: Seq<u8>, b: Seq<u8>, m: Seq<u8>, i: int)
    requires
        i >= a.len(),
    ensures
        count_from(a + b, m, i) == count_from(b, m, i - a.len()),
    decreases (a + b).len() + 1 - i,
{
    if !(i < 0 || i + m.len() > (a + b).len()) {
        lemma_window_shift(a, b, m, i);
        lemma_count_shift(a, b, m, i + 1);
    }
}

proof fn lemma_count_split_from(a: Seq<u8>, b: Seq<u8>, m: Seq<u8>, i: int)
    requires
        m.len() > 0,
        0 <= i <= a.len(),
        forall|k: int| 0 <= k < a.len() && a.len() < k + m.len() ==> !#[trigger] window_at(a + b, m, k),
    ensures
        count_from(a + b, m, i) == count_from(a, m, i) + count_from(b, m, 0),
    decreases a.len() - i,
{
    if i == a.len() {
        lemma_count_shift(a, b, m, i);
    } else {
        lemma_count_split_from(a, b, m, i + 1);
        if i + m.len() <= a.len() {
            lemma_window_prefix(a, b, m, i);
        }
    }
}

/// Counting in two joined parts, when no occurrence straddles the join.
proof fn lemma_count_split(a: Seq<u8>, b: Seq<u8>, m: Seq<u8>)
    requires
        m.len() > 0,
        forall|k: int| 0 <= k < a.len() && a.len() < k + m.len() ==> !#[trigger] window_at(a + b, m, k),
    ensures
        count_from(a + b, m, 0) == count_from(a, m, 0) + count_from(b, m, 0),
{
    lemma_count_split_from(a, b, m, 0);
}

proof fn lemma_count_positive(c: Seq<u8>, m: Seq<u8>, i: int, k: int)
    requires
        0 <= i <= k,
        window_at(c, m, k),
    ensures
        count_from(c, m, i) >= 1,
    decreases k - i,
{
    if i < k {
        lemma_count_positive(c, m, i + 1, k);
    }
}

proof fn lemma_count_two(c: Seq<u8>, m: Seq<u8>, i: int, p: int, q: int)
    requires
        0 <= i <= p < q,
        window_at(c, m, p),
        window_at(c, m, q),
    ensures
        count_from(c, m, i) >= 2,
    decreases p - i,
{
    if i < p {
        lemma_count_two(c, m, i + 1, p, q);
    } else {
        lemma_count_positive(c, m, i + 1, q);
    }
}

proof fn lemma_first_window(c: Seq<u8>, m: Seq<u8>, i: int, k: int)
    requires
        0 <= i <= k,
        window_at(c, m, k),
    ensures
        first_from(c, m, i) matches Some(j) && i <= j <= k && window_at(c, m, j),
    decreases k - i,
{
    if i < k && !window_at(c, m, i) {
        lemma_first_window(c, m, i + 1, k);
    }
}

/// With one occurrence, the first occurrence is wherever one is seen.
proof fn lemma_only_occurrence(c: Seq<u8>, m: Seq<u8>, k: int)
    requires
        0 <= k,
        window_at(c, m, k),
        count_from(c, m, 0) == 1,
    ensures
        first_from(c, m, 0) == Some(k),
{
    lemma_first_window(c, m, 0, k);
    let j = first_from(c, m, 0)->0;
    if j < k {
        lemma_count_two(c, m, 0, j, k);
    }
}

/// No occurrence of `m` in `c` before `limit` when the first one is there.
proof fn lemma_none_before(c: Seq<u8>, m: Seq<u8>, limit: int)
    requires
        m.len() > 0,
        0 <= limit <= c.len(),
        forall|k: int| 0 <= k && k + m.len() <= limit ==> !#[trigger] window_at(c, m, k),
    ensures
        count_from(c.take(limit), m, 0) == 0,
{
    if count_from(c.take(limit), m, 0) > 0 {
        lemma_first_some(c.take(limit), m, 0);
        let k = first_from(c.take(limit), m, 0)->0;
        lemma_first_is_window(c.take(limit), m, 0);
        assert(c =~= c.take(limit) + c.skip(limit));
        lemma_window_prefix(c.take(limit), c.skip(limit), m, k);
    }
}

proof fn lemma_first_is_window(c: Seq<u8>, m: Seq<u8>, i: int)
    requires
        first_from(c, m, i) is Some,
    ensures
        window_at(c, m, first_from(c, m, i)->0),
    decreases c.len() + 1 - i,
{
    if !(i < 0 || i + m.len() > c.len()) && !window_at(c, m, i) {
        lemma_first_is_window(c, m, i + 1);
    }
}

/// No occurrence of `m` in `c` from `start` on.
proof fn lemma_none_after(c: Seq<u8>, m: Seq<u8>, start: int)
    requires
        m.len() > 0,
        0 <= start <= c.len(),
        forall|k: int| k >= start ==> !#[trigger] window_at(c, m, k),
    ensures
        count_from(c.skip(start), m, 0) == 0,
{
    if count_from(c.skip(start), m, 0) > 0 {
        lemma_first_some(c.skip(start), m, 0);
        let k = first_from(c.skip(start), m, 0)->0;
        lemma_first_is_window(c.skip(start), m, 0);
        assert(c =~= c.take(start) + c.skip(start));
        lemma_window_shift(c.take(start), c.skip(start), m, start + k);
    }
}

/// A marker that holds no line break and the block's first byte only at its
/// start straddles neither end of a block that ends with a line break.
proof fn lemma_no_straddle(m: Seq<u8>, f: u8, e: Seq<u8>, block: Seq<u8>, rest: Seq<u8>)
    requires
        m.len() > 0,
        !m.contains(10u8),
        only_leading(m, f),
        block.len() > 0,
        block[0] == f,
        block.last() == 10u8,
    ensures
        forall|k: int| 0 <= k < block.len() && block.len() < k + m.len() ==> !#[trigger] window_at(block + rest, m, k),
        forall|k: int| 0 <= k < e.len() && e.len() < k + m.len() ==> !#[trigger] window_at(e + (block + rest), m, k),
{
    assert forall|k: int| 0 <= k < block.len() && block.len() < k + m.len() implies !#[trigger] window_at(
        block + rest,
        m,
        k,
    ) by {
        if window_at(block + rest, m, k) {
            let j = block.len() - 1 - k;
            assert((block + rest).subrange(k, k + m.len())[j] == (block + rest)[block.len() - 1]);
            assert(m[j] == 10u8);
        }
    }
    assert forall|k: int| 0 <= k < e.len() && e.len() < k + m.len() implies !#[trigger] window_at(e + (block + rest), m, k) by {
        if window_at(e + (block + rest), m, k) {
            let j = e.len() - k;
            assert((e + (block + rest)).subrange(k, k + m.len())[j] == (e + (block + rest))[e.len() as int]);
            assert(m[j] == f);
        }
    }
}

/// A file that holds no marker still holds none with a line break added.
proof fn lemma_break_adds_no_marker(existing: Seq<u8>, m: Seq<u8>)
    requires
        m.len() > 0,
        !m.contains(10u8),
        count_from(existing, m, 0) == 0,
    ensures
        count_from(existing + seq![10u8], m, 0) == 0,
{
    assert forall|k: int| 0 <= k < existing.len() && existing.len() < k + m.len() implies !#[trigger] window_at(
        existing + seq![10u8],
        m,
        k,
    ) by {
        if window_at(existing + seq![10u8], m, k) {
            let j = existing.len() - k;
            assert((existing + seq![10u8]).subrange(k, k + m.len())[j] == (existing + seq![10u8])[existing.len() as int]);
        }
    }
    lemma_count_split(existing, seq![10u8], m);
    let nl = seq![10u8];
    if m.len() == 1 {
        if window_at(nl, m, 0) {
            assert(nl.subrange(0, 1)[0] == m[0]);
            assert(m[0] == 10u8);
            assert(m.contains(10u8));
        }
        assert(count_from(nl, m, 1) == 0);
        assert(count_from(nl, m, 0) == 0);
    } else {
        assert(count_from(nl, m, 0) == 0);
    }
}

/// The block between two parts holding no marker: each marker occurs once,
/// the opening marker first, and managing the block again puts a line break
/// after it.
proof fn lemma_block_between(open: Seq<u8>, close: Seq<u8>, block: Seq<u8>, e: Seq<u8>, rest: Seq<u8>, label: Seq<char>)
    requires
        manageable_block(open, close, block),
        count_from(e, open, 0) == 0,
        count_from(e, close, 0) == 0,
        count_from(rest, open, 0) == 0,
        count_from(rest, close, 0) == 0,
    ensures
        count_from(e + block + rest, open, 0) == 1,
        count_from(e + block + rest, close, 0) == 1,
        managed_content(e + block + rest, open, close, block, label) == Ok::<Seq<u8>, Seq<char>>(
            e + block + seq![10u8] + rest,
        ),
{
    let r = e + block + rest;
    let tail = block + rest;
    assert(r =~= e + tail);
    assert(block.take(open.len() as int)[0] == block[0]);
    lemma_no_straddle(open, open[0], e, block, rest);
    lemma_no_straddle(close, open[0], e, block, rest);
    lemma_count_split(block, rest, open);
    lemma_count_split(block, rest, close);
    lemma_count_split(e, tail, open);
    lemma_count_split(e, tail, close);
    // where the markers now stand
    let q = block.len() - 1 - close.len();
    assert(window_at(r, open, e.len() as int)) by {
        assert(r.subrange(e.len() as int, (e.len() + open.len()) as int) =~= block.take(open.len() as int));
    }
    assert(window_at(r, close, e.len() + q)) by {
        assert(r.subrange(e.len() + q, e.len() + q + close.len()) =~= block.subrange(q, q + close.len()));
    }
    lemma_only_occurrence(r, open, e.len() as int);
    lemma_only_occurrence(r, close, e.len() + q);
    assert(r.take(e.len() as int) =~= e);
    assert(r.skip(e.len() + q + close.len()) =~= seq![10u8] + rest);
    assert(e + block + seq![10u8] + rest =~= r.take(e.len() as int) + block + r.skip(e.len() + q + close.len()));
}

/// Installing a manageable block into a startup file that takes it leaves
/// exactly one opening and one closing marker, the opening one first, and
/// installing the same block again is accepted and only adds a line break
/// after the block.
pub proof fn install_keeps_one_block(existing: Seq<u8>, open: Seq<u8>, close: Seq<u8>, block: Seq<u8>, label: Seq<char>)
    requires
        manageable_block(open, close, block),
        managed_content(existing, open, close, block, label) is Ok,
    ensures
        ({
            let r = managed_content(existing, open, close, block, label)->Ok_0;
            &&& count_from(r, open, 0) == 1
            &&& count_from(r, close, 0) == 1
            &&& first_from(r, open, 0)->0 < first_from(r, close, 0)->0
            &&& exists|e: Seq<u8>, rest: Seq<u8>|
                r == e + block + rest && managed_content(r, open, close, block, label) == Ok::<
                    Seq<u8>,
                    Seq<char>,
                >(e + block + seq![10u8] + rest)
        }),
{
    let o = count_from(existing, open, 0);
    let c = count_from(existing, close, 0);
    let r = managed_content(existing, open, close, block, label)->Ok_0;
    let rest = Seq::<u8>::empty();
    let e = if o == 0 && c == 0 {
        let e = if existing.len() > 0 && existing.last() != 10u8 {
            existing.push(10u8)
        } else {
            existing
        };
        if existing.len() > 0 && existing.last() != 10u8 {
            assert(e =~= existing + seq![10u8]);
            lemma_break_adds_no_marker(existing, open);
            lemma_break_adds_no_marker(existing, close);
        }
        assert(r =~= e + block + rest);
        e
    } else {
        lemma_first_some(existing, open, 0);
        lemma_first_some(existing, close, 0);
        lemma_first_is_window(existing, open, 0);
        lemma_first_is_window(existing, close, 0);
        let op = first_from(existing, open, 0)->0;
        let cp = first_from(existing, close, 0)->0;
        let s = cp + close.len();
        // nothing before the opening marker, nothing after the closing one
        assert forall|k: int| 0 <= k && k + open.len() <= op implies !#[trigger] window_at(existing, open, k) by {
            if window_at(existing, open, k) {
                lemma_first_window(existing, open, 0, k);
            }
        }
        assert forall|k: int| 0 <= k && k + close.len() <= op implies !#[trigger] window_at(existing, close, k) by {
            if window_at(existing, close, k) {
                lemma_first_window(existing, close, 0, k);
            }
        }
        assert forall|k: int| k >= s implies !#[trigger] window_at(existing, open, k) by {
            if window_at(existing, open, k) {
                lemma_count_two(existing, open, 0, op, k);
            }
        }
        assert forall|k: int| k >= s implies !#[trigger] window_at(existing, close, k) by {
            if window_at(existing, close, k) {
                lemma_count_two(existing, close, 0, cp, k);
            }
        }
        lemma_none_before(existing, open, op);
        lemma_none_before(existing, close, op);
        lemma_none_after(existing, open, s);
        lemma_none_after(existing, close, s);
        let e = existing.take(op);
        assert(r =~= e + block + existing.skip(s));
        e
    };
    let rest = if o == 0 && c == 0 {
        rest
    } else {
        existing.skip(first_from(existing, close, 0)->0 + close.len())
    };
    lemma_block_between(open, close, block, e, rest, label);
    let q = block.len() - 1 - close.len();
    assert(window_at(r, open, e.len() as int)) by {
        assert(r.subrange(e.len() as int, (e.len() + open.len()) as int) =~= block.take(open.len() as int));
    }
    assert(window_at(r, close, e.len() + q)) by {
        assert(r.subrange(e.len() + q, e.len() + q + close.len()) =~= block.subrange(q, q + close.len()));
    }
    lemma_only_occurrence(r, open, e.len() as int);
    lemma_only_occurrence(r, close, e.len() + q);
}

} // verus!
