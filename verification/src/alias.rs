//! Shell aliases: the block k8pk adds to a shell's config file, and adding
//! and removing it.

use vstd::prelude::*;
use crate::text::{
    chars_lines, chars_of, concat, contains_seq, has_suffix, join_seq, lines, owned, str_contains,
    str_ends_with, str_eq, string_of, views,
};

use crate::context::{join_path_exec, path_join};
use crate::kubeconfig::opt_str;

verus! {

/// The line that opens the alias block.
pub const ALIAS_MARKER_START: &'static str = "# >>> k8pk aliases >>>";

/// The line that closes the alias block.
pub const ALIAS_MARKER_END: &'static str = "# <<< k8pk aliases <<<";

/// The alias block for a shell: fish functions for fish, POSIX aliases for
/// any other shell.
pub open spec fn aliases_block(shell: Seq<char>) -> Seq<char> {
    if shell == "fish"@ {
        "# >>> k8pk aliases >>>
# k8pk shell aliases - added by 'k8pk alias --install'
alias kk='k8pk'
alias kctx='k8pk ctx'
alias kns='k8pk ns'
function k8pk_init
    set -l env_output (k8pk env --context $argv[1] --namespace $argv[2] --shell fish 2>/dev/null)
    if test $status -eq 0
        eval $env_output
    end
end
# <<< k8pk aliases <<<"@
    } else {
        "# >>> k8pk aliases >>>
# k8pk shell aliases - added by 'k8pk alias --install'
alias kk='k8pk'
alias kctx='k8pk ctx'
alias kns='k8pk ns'
# Optional: eval integration for current shell (uncomment if needed)
# k8pk_ctx() { eval \"$(k8pk ctx \"$@\" -o env)\"; }
# k8pk_ns() { eval \"$(k8pk ns \"$@\" -o env)\"; }
# <<< k8pk aliases <<<"@
    }
}

/// The alias block for a shell.
pub fn get_aliases_block(shell: &str) -> (r: String)
    ensures
        r@ == aliases_block(shell@),
{
    if str_eq(shell, "fish") {
        owned("# >>> k8pk aliases >>>
# k8pk shell aliases - added by 'k8pk alias --install'
alias kk='k8pk'
alias kctx='k8pk ctx'
alias kns='k8pk ns'
function k8pk_init
    set -l env_output (k8pk env --context $argv[1] --namespace $argv[2] --shell fish 2>/dev/null)
    if test $status -eq 0
        eval $env_output
    end
end
# <<< k8pk aliases <<<")
    } else {
        owned("# >>> k8pk aliases >>>
# k8pk shell aliases - added by 'k8pk alias --install'
alias kk='k8pk'
alias kctx='k8pk ctx'
alias kns='k8pk ns'
# Optional: eval integration for current shell (uncomment if needed)
# k8pk_ctx() { eval \"$(k8pk ctx \"$@\" -o env)\"; }
# k8pk_ns() { eval \"$(k8pk ns \"$@\" -o env)\"; }
# <<< k8pk aliases <<<")
    }
}

/// A shell config file's text with the alias block appended (on a line of
/// its own).
pub open spec fn with_aliases(existing: Seq<char>, block: Seq<char>) -> Seq<char> {
    if has_suffix(existing, "\n"@) || existing.len() == 0 {
        existing + block + "\n"@
    } else {
        existing + "\n"@ + block + "\n"@
    }
}

/// Whether a shell config file already holds the alias block.
pub fn aliases_installed(existing: &str) -> (r: bool)
    ensures
        r == contains_seq(existing@, ALIAS_MARKER_START@),
{
    str_contains(existing, ALIAS_MARKER_START)
}

/// Appends the alias block to a shell config file's text.
pub fn install_aliases_text(existing: &str, block: &str) -> (r: String)
    ensures
        r@ == with_aliases(existing@, block@),
{
    let empty = chars_of(existing).len() == 0;
    if str_ends_with(existing, "\n") || empty {
        concat(concat(existing, block).as_str(), "\n")
    } else {
        concat(concat(concat(existing, "\n").as_str(), block).as_str(), "\n")
    }
}

/// The lines kept when the alias block is removed: lines from one holding
/// the start marker to one holding the end marker (both included) go.
pub open spec fn kept_lines(ls: Seq<Seq<char>>) -> (Seq<Seq<char>>, bool)
    decreases ls.len(),
{
    if ls.len() == 0 {
        (Seq::empty(), false)
    } else {
        let (kept, in_block) = kept_lines(ls.drop_last());
        let l = ls.last();
        if contains_seq(l, ALIAS_MARKER_START@) {
            (kept, true)
        } else if contains_seq(l, ALIAS_MARKER_END@) {
            (kept, false)
        } else if in_block {
            (kept, true)
        } else {
            (kept.push(l), false)
        }
    }
}

/// The lines without trailing empty ones.
pub open spec fn drop_trailing_empty(ls: Seq<Seq<char>>) -> Seq<Seq<char>>
    decreases ls.len(),
{
    if ls.len() > 0 && ls.last().len() == 0 {
        drop_trailing_empty(ls.drop_last())
    } else {
        ls
    }
}

/// A shell config file's text with the alias block removed, trailing empty
/// lines dropped, and a final newline.
pub open spec fn without_aliases(content: Seq<char>) -> Seq<char> {
    join_seq(drop_trailing_empty(kept_lines(lines(content)).0), "\n"@) + "\n"@
}

/// Removes the alias block from a shell config file's text.
pub fn uninstall_aliases_text(content: &str) -> (r: String)
    ensures
        r@ == without_aliases(content@),
{
    let cs = chars_of(content);
    let ls = chars_lines(&cs);
    let ghost lv = ls@.map_values(|v: Vec<char>| v@);
    let start = chars_of(ALIAS_MARKER_START);
    let end = chars_of(ALIAS_MARKER_END);
    let mut kept: Vec<Vec<char>> = Vec::new();
    let mut in_block = false;
    let mut i: usize = 0;
    assert(lv.take(0) =~= Seq::<Seq<char>>::empty());
    assert(kept@.map_values(|v: Vec<char>| v@) =~= Seq::<Seq<char>>::empty());
    while i < ls.len()
        invariant
            i <= ls@.len(),
            lv == ls@.map_values(|v: Vec<char>| v@),
            start@ == ALIAS_MARKER_START@,
            end@ == ALIAS_MARKER_END@,
            (kept@.map_values(|v: Vec<char>| v@), in_block) == kept_lines(lv.take(i as int)),
        decreases ls.len() - i,
    {
        assert(lv.take(i + 1).drop_last() =~= lv.take(i as int));
        assert(lv.take(i + 1).last() == ls@[i as int]@);
        if crate::text::chars_contains(&ls[i], &start) {
            in_block = true;
        } else if crate::text::chars_contains(&ls[i], &end) {
            in_block = false;
        } else if !in_block {
            let ghost before = kept@;
            let line = crate::text::chars_sub(&ls[i], 0, ls[i].len());
            assert(line@ =~= ls@[i as int]@);
            kept.push(line);
            assert(kept@.map_values(|v: Vec<char>| v@) =~= before.map_values(|v: Vec<char>| v@).push(ls@[i as int]@));
        }
        i = i + 1;
    }
    assert(lv.take(ls.len() as int) =~= lv);
    while kept.len() > 0 && kept[kept.len() - 1].len() == 0
        invariant
            drop_trailing_empty(kept@.map_values(|v: Vec<char>| v@)) == drop_trailing_empty(kept_lines(lv).0),
        decreases kept.len(),
    {
        let ghost before = kept@;
        kept.pop();
        assert(kept@.map_values(|v: Vec<char>| v@) =~= before.map_values(|v: Vec<char>| v@).drop_last());
    }
    let sep = chars_of("\n");
    let joined = crate::text::chars_join(&kept, &sep);
    concat(string_of(&joined).as_str(), "\n")
}

/// The shell named by `$SHELL`: its last path segment, or bash when unset.
pub open spec fn alias_shell(shell_env: Option<Seq<char>>) -> Seq<char> {
    match shell_env {
        Some(s) => match crate::text::rsplit_once_char(s, '/') {
            Some((_, last)) => last,
            None => s,
        },
        None => "bash"@,
    }
}

/// The shell to set up aliases for, from `$SHELL`.
pub fn detect_alias_shell(shell_env: Option<&str>) -> (r: String)
    ensures
        r@ == alias_shell(crate::login::opt_view(shell_env)),
{
    match shell_env {
        Some(s) => {
            let cs = chars_of(s);
            match crate::text::chars_rsplit_once(&cs, '/') {
                Some((_, last)) => string_of(&last),
                None => owned(s),
            }
        },
        None => owned("bash"),
    }
}

/// The shell startup file the aliases go in: `.zshrc`, `.bashrc` (or
/// `.bash_profile` when there is no `.bashrc`), or fish's config; none for
/// another shell.
pub fn shell_config_path(shell: &str, home: &str, bashrc_exists: bool) -> (r: Option<String>)
    ensures
        opt_str(r) == if shell@ == "zsh"@ {
            Some(path_join(home@, ".zshrc"@))
        } else if shell@ == "bash"@ {
            Some(path_join(home@, if bashrc_exists { ".bashrc"@ } else { ".bash_profile"@ }))
        } else if shell@ == "fish"@ {
            Some(path_join(home@, ".config/fish/config.fish"@))
        } else {
            None
        },
{
    if str_eq(shell, "zsh") {
        Some(join_path_exec(home, ".zshrc"))
    } else if str_eq(shell, "bash") {
        if bashrc_exists {
            Some(join_path_exec(home, ".bashrc"))
        } else {
            Some(join_path_exec(home, ".bash_profile"))
        }
    } else if str_eq(shell, "fish") {
        Some(join_path_exec(home, ".config/fish/config.fish"))
    } else {
        None
    }
}

/// Where a shell's completion script is installed: the directory, and the
/// file in it; none for another shell.
pub open spec fn completion_place(shell: Seq<char>, home: Seq<char>) -> Option<(Seq<char>, Seq<char>)> {
    if shell == "bash"@ {
        let d = path_join(home, ".local/share/bash-completion/completions"@);
        Some((d, path_join(d, "k8pk"@)))
    } else if shell == "zsh"@ {
        let d = path_join(home, ".zfunc"@);
        Some((d, path_join(d, "_k8pk"@)))
    } else if shell == "fish"@ {
        let d = path_join(home, ".config/fish/completions"@);
        Some((d, path_join(d, "k8pk.fish"@)))
    } else {
        None
    }
}

/// Where a shell's completion script is installed.
pub fn completion_target(shell: &str, home: &str) -> (r: Option<(String, String)>)
    ensures
        match r {
            Some((d, f)) => completion_place(shell@, home@) == Some((d@, f@)),
            None => completion_place(shell@, home@) is None,
        },
{
    let (dir, file) = if str_eq(shell, "bash") {
        (".local/share/bash-completion/completions", "k8pk")
    } else if str_eq(shell, "zsh") {
        (".zfunc", "_k8pk")
    } else if str_eq(shell, "fish") {
        (".config/fish/completions", "k8pk.fish")
    } else {
        return None;
    };
    let d = join_path_exec(home, dir);
    let f = join_path_exec(d.as_str(), file);
    Some((d, f))
}

/// The file named in the manual alias instructions for a shell.
pub fn manual_setup_line(shell: &str) -> (r: &'static str)
    ensures
        r@ == if shell@ == "fish"@ {
            "Add to ~/.config/fish/config.fish:"@
        } else if shell@ == "zsh"@ {
            "Add to ~/.zshrc:"@
        } else {
            "Add to ~/.bashrc or ~/.bash_profile:"@
        },
{
    if str_eq(shell, "fish") {
        "Add to ~/.config/fish/config.fish:"
    } else if str_eq(shell, "zsh") {
        "Add to ~/.zshrc:"
    } else {
        "Add to ~/.bashrc or ~/.bash_profile:"
    }
}

} // verus!
