//! Finding kubeconfig files from the configured patterns, and the
//! Kubernetes command-line tool used to query clusters.

use vstd::prelude::*;
use crate::config::K8pkConfig;
use crate::context::{glob_match, glob_ok, join_path_exec, path_join, path_parent};
use crate::error::{ErrorKind, K8pkError};
use crate::kubeconfig::{holds_path, opt_str};
use crate::text::{
    chars_of, concat, contains_seq, has_prefix, owned, sort_strings, str_contains, str_le, str_starts_with,
    str_trim, string_of, trim, views,
};

verus! {

// ---------------------------------------------------------------------------
// Patterns
// ---------------------------------------------------------------------------

/// A path with a leading `~/` resolved against the home directory (when it
/// is known).
pub open spec fn expanded(p: Seq<char>, home: Option<Seq<char>>) -> Seq<char> {
    match home {
        Some(h) => if has_prefix(p, "~/"@) {
            path_join(h, p.subrange(2, p.len() as int))
        } else {
            p
        },
        None => p,
    }
}

/// Expands a leading `~/` to the home directory.
pub fn expand_home(path: &str, home: Option<&str>) -> (r: String)
    ensures
        r@ == expanded(
            path@,
            match home {
                Some(h) => Some(h@),
                None => None,
            },
        ),
{
    match home {
        Some(h) => {
            if str_starts_with(path, "~/") {
                let cs = chars_of(path);
                proof {
                    reveal_strlit("~/");
                }
                let mut rest: Vec<char> = Vec::new();
                let mut i: usize = 2;
                while i < cs.len()
                    invariant
                        2 <= i <= cs@.len(),
                        cs@ == path@,
                        rest@ == cs@.subrange(2, i as int),
                    decreases cs.len() - i,
                {
                    rest.push(cs[i]);
                    assert(cs@.subrange(2, i + 1) =~= cs@.subrange(2, i as int).push(cs@[i as int]));
                    i = i + 1;
                }
                let tail = string_of(&rest);
                join_path_exec(h, tail.as_str())
            } else {
                owned(path)
            }
        },
        None => owned(path),
    }
}

/// Whether `path` matches any of the glob `patterns` (each expanded), or
/// the first pattern that globset refuses.
pub open spec fn globs_result(path: Seq<char>, pats: Seq<Seq<char>>, home: Option<Seq<char>>) -> Result<bool, Seq<char>>
    decreases pats.len(),
{
    if pats.len() == 0 {
        Ok(false)
    } else {
        let e = expanded(pats[0], home);
        if !glob_ok(e) {
            Err("invalid glob: "@ + pats[0])
        } else {
            match globs_result(path, pats.drop_first(), home) {
                Ok(b) => Ok(glob_match(e, path) || b),
                Err(m) => Err(m),
            }
        }
    }
}

/// Checks whether a path matches any of the given glob patterns.
pub fn match_globs(path: &str, patterns: &[String], home: Option<&str>) -> (r: Result<bool, K8pkError>)
    ensures
        match globs_result(path@, views(patterns@), opt_home(home)) {
            Ok(b) => r == Ok::<bool, K8pkError>(b),
            Err(m) => r matches Err(e) && e.is(ErrorKind::InvalidKubeconfig, m),
        },
{
    let ghost pv = views(patterns@);
    let ghost hv = opt_home(home);
    let mut matched = false;
    let mut i: usize = 0;
    assert(pv.skip(0) =~= pv);
    while i < patterns.len()
        invariant
            i <= patterns@.len(),
            pv == views(patterns@),
            hv == opt_home(home),
            globs_result(path@, pv, hv) == match globs_result(path@, pv.skip(i as int), hv) {
                Ok(b) => Ok(matched || b),
                Err(m) => Err::<bool, Seq<char>>(m),
            },
        decreases patterns.len() - i,
    {
        proof {
            assert(pv.skip(i as int).drop_first() =~= pv.skip(i + 1));
            assert(pv.skip(i as int)[0] == patterns@[i as int]@);
        }
        let e = expand_home(patterns[i].as_str(), home);
        match crate::context::glob_test(e.as_str(), path) {
            Some(b) => {
                matched = matched || b;
            },
            None => {
                return Err(K8pkError::InvalidKubeconfig(concat("invalid glob: ", patterns[i].as_str())));
            },
        }
        i = i + 1;
    }
    assert(pv.skip(patterns.len() as int) =~= Seq::<Seq<char>>::empty());
    Ok(matched)
}

/// The home directory as a plain value.
pub open spec fn opt_home(home: Option<&str>) -> Option<Seq<char>> {
    match home {
        Some(h) => Some(h@),
        None => None,
    }
}

// ---------------------------------------------------------------------------
// Files matched by the configured patterns
// ---------------------------------------------------------------------------

/// A file found in a pattern's directory.
#[derive(Debug, Clone)]
pub struct FileEntry {
    pub path: String,
    pub is_file: bool,
}

/// What the file system shows for one configured pattern: for a glob, whether
/// its directory exists and the entries listed in it (none when it is not a
/// directory); for a plain path, whether it is an existing file.
#[derive(Debug, Clone)]
pub enum PatternFiles {
    Glob { dir_exists: bool, entries: Vec<FileEntry> },
    Direct { is_file: bool },
}

/// The directory a glob pattern's files are listed from: the parent of the
/// expanded pattern. Plain paths list none.
pub open spec fn listing_dir(pattern: Seq<char>, home: Option<Seq<char>>) -> Option<Seq<char>> {
    if contains_seq(pattern, "*"@) {
        path_parent(expanded(pattern, home))
    } else {
        None
    }
}

/// The directory whose entries a glob pattern is matched against.
pub fn pattern_listing_dir(pattern: &str, home: Option<&str>) -> (r: Option<String>)
    ensures
        opt_str(r) == listing_dir(pattern@, opt_home(home)),
{
    if str_contains(pattern, "*") {
        let e = expand_home(pattern, home);
        crate::context::parent_of(e.as_str())
    } else {
        None
    }
}

/// Adds the entries of a glob's directory that the glob matches, that no
/// exclude pattern matches, that are files and are not there yet.
pub open spec fn entries_step(
    acc: Seq<Seq<char>>,
    glob: Seq<char>,
    excludes: Seq<Seq<char>>,
    home: Option<Seq<char>>,
    entries: Seq<FileEntry>,
) -> Result<Seq<Seq<char>>, Seq<char>>
    decreases entries.len(),
{
    if entries.len() == 0 {
        Ok(acc)
    } else {
        match entries_step(acc, glob, excludes, home, entries.drop_last()) {
            Err(m) => Err(m),
            Ok(a) => {
                let p = entries.last().path@;
                if !glob_match(glob, p) {
                    Ok(a)
                } else {
                    match globs_result(p, excludes, home) {
                        Err(m) => Err(m),
                        Ok(true) => Ok(a),
                        Ok(false) => if holds_path(a, p) || !entries.last().is_file {
                            Ok(a)
                        } else {
                            Ok(a.push(p))
                        },
                    }
                }
            },
        }
    }
}

/// The files one pattern adds: for a glob, the matching files of its
/// directory (an error when the pattern has no directory part or globset
/// refuses it); for a plain path, the path itself when it is a file and not
/// excluded. Paths already found are not added again.
pub open spec fn pattern_step(
    acc: Seq<Seq<char>>,
    pattern: Seq<char>,
    excludes: Seq<Seq<char>>,
    home: Option<Seq<char>>,
    f: PatternFiles,
) -> Result<Seq<Seq<char>>, Seq<char>> {
    let e = expanded(pattern, home);
    if contains_seq(pattern, "*"@) {
        match path_parent(e) {
            None => Err("invalid pattern: "@ + pattern),
            Some(_) => match f {
                PatternFiles::Glob { dir_exists, entries } => if !dir_exists {
                    Ok(acc)
                } else if !glob_ok(e) {
                    Err("invalid glob: "@ + pattern)
                } else {
                    entries_step(acc, e, excludes, home, entries@)
                },
                PatternFiles::Direct { .. } => Ok(acc),
            },
        }
    } else {
        match f {
            PatternFiles::Direct { is_file } => if !is_file {
                Ok(acc)
            } else {
                match globs_result(e, excludes, home) {
                    Err(m) => Err(m),
                    Ok(true) => Ok(acc),
                    Ok(false) => if holds_path(acc, e) {
                        Ok(acc)
                    } else {
                        Ok(acc.push(e))
                    },
                }
            },
            PatternFiles::Glob { .. } => Ok(acc),
        }
    }
}

/// The kubeconfig files the first `n` configured patterns find, in order.
pub open spec fn config_paths(
    includes: Seq<Seq<char>>,
    excludes: Seq<Seq<char>>,
    home: Option<Seq<char>>,
    files: Seq<PatternFiles>,
    n: nat,
) -> Result<Seq<Seq<char>>, Seq<char>>
    decreases n,
{
    if n == 0 {
        Ok(Seq::empty())
    } else {
        match config_paths(includes, excludes, home, files, (n - 1) as nat) {
            Err(m) => Err(m),
            Ok(acc) => pattern_step(acc, includes[n - 1], excludes, home, files[n - 1]),
        }
    }
}


proof fn lemma_entries_err_persists(
    acc: Seq<Seq<char>>,
    glob: Seq<char>,
    excludes: Seq<Seq<char>>,
    home: Option<Seq<char>>,
    s: Seq<FileEntry>,
    n: int,
)
    requires
        0 <= n <= s.len(),
        entries_step(acc, glob, excludes, home, s.take(n)) is Err,
    ensures
        entries_step(acc, glob, excludes, home, s) == entries_step(acc, glob, excludes, home, s.take(n)),
    decreases s.len(),
{
    if s.len() == n {
        assert(s.take(n) =~= s);
    } else {
        assert(s.drop_last().take(n) =~= s.take(n));
        lemma_entries_err_persists(acc, glob, excludes, home, s.drop_last(), n);
    }
}

proof fn lemma_config_err_persists(
    includes: Seq<Seq<char>>,
    excludes: Seq<Seq<char>>,
    home: Option<Seq<char>>,
    files: Seq<PatternFiles>,
    n: nat,
    k: nat,
)
    requires
        k <= n,
        config_paths(includes, excludes, home, files, k) is Err,
    ensures
        config_paths(includes, excludes, home, files, n) == config_paths(includes, excludes, home, files, k),
    decreases n,
{
    if n > k {
        lemma_config_err_persists(includes, excludes, home, files, (n - 1) as nat, k);
    }
}

fn holds_path_in(acc: &Vec<String>, p: &str) -> (r: bool)
    ensures
        r == holds_path(views(acc@), p@),
{
    let mut i: usize = 0;
    while i < acc.len()
        invariant
            i <= acc@.len(),
            forall|j: int| 0 <= j < i ==> !crate::kubeconfig::same_path(acc@[j]@, p@),
        decreases acc.len() - i,
    {
        if crate::kubeconfig::path_eq(acc[i].as_str(), p) {
            assert(views(acc@)[i as int] == acc@[i as int]@);
            return true;
        }
        i = i + 1;
    }
    proof {
        if holds_path(views(acc@), p@) {
            let j = choose|j: int| 0 <= j < views(acc@).len() && crate::kubeconfig::same_path(views(acc@)[j], p@);
            assert(views(acc@)[j] == acc@[j]@);
        }
    }
    false
}

fn add_matching_entries(
    acc: &mut Vec<String>,
    glob: &str,
    excludes: &Vec<String>,
    home: Option<&str>,
    entries: &Vec<FileEntry>,
) -> (r: Result<(), K8pkError>)
    requires
        glob_ok(glob@),
    ensures
        match entries_step(views(old(acc)@), glob@, views(excludes@), opt_home(home), entries@) {
            Ok(a) => r is Ok && views(final(acc)@) == a,
            Err(m) => r matches Err(e) && e.is(ErrorKind::InvalidKubeconfig, m),
        },
{
    let ghost start = views(acc@);
    let mut i: usize = 0;
    while i < entries.len()
        invariant
            i <= entries@.len(),
            glob_ok(glob@),
            start == views(old(acc)@),
            entries_step(start, glob@, views(excludes@), opt_home(home), entries@.take(i as int)) == Ok::<
                Seq<Seq<char>>,
                Seq<char>,
            >(views(acc@)),
        decreases entries.len() - i,
    {
        proof {
            assert(entries@.take(i + 1).drop_last() =~= entries@.take(i as int));
            assert(entries@.take(i + 1).last() == entries@[i as int]);
        }
        let p = entries[i].path.as_str();
        let hit = match crate::context::glob_test(glob, p) {
            Some(b) => b,
            None => false,
        };
        if hit {
            match match_globs(p, excludes.as_slice(), home) {
                Err(e) => {
                    proof {
                        let t = entries@.take(i + 1);
                        assert(t.last().path@ == p@);
                        assert(entries_step(start, glob@, views(excludes@), opt_home(home), t) == Err::<Seq<Seq<char>>, Seq<char>>(e.detail()));
                        lemma_entries_err_persists(start, glob@, views(excludes@), opt_home(home), entries@, i + 1);
                    }
                    return Err(e);
                },
                Ok(true) => {},
                Ok(false) => {
                    if !holds_path_in(acc, p) && entries[i].is_file {
                        let ghost before = acc@;
                        acc.push(entries[i].path.clone());
                        assert(views(acc@) =~= views(before).push(p@));
                    }
                },
            }
        }
        i = i + 1;
    }
    assert(entries@.take(entries@.len() as int) =~= entries@);
    Ok(())
}

/// Finds kubeconfig files from the config's patterns, given what the file
/// system shows for each pattern (`files[i]` for the `i`-th pattern).
pub fn find_from_config(config: &K8pkConfig, home: Option<&str>, files: &[PatternFiles]) -> (r: Result<Vec<String>, K8pkError>)
    requires
        files@.len() == config.configs.includes@.len(),
    ensures
        match config_paths(
            views(config.configs.includes@),
            views(config.configs.excludes@),
            opt_home(home),
            files@,
            config.configs.includes@.len(),
        ) {
            Ok(p) => r matches Ok(v) && views(v@) == p,
            Err(m) => r matches Err(e) && e.is(ErrorKind::InvalidKubeconfig, m),
        },
{
    let ghost inc = views(config.configs.includes@);
    let ghost exc = views(config.configs.excludes@);
    let ghost hv = opt_home(home);
    let mut paths: Vec<String> = Vec::new();
    let mut i: usize = 0;
    assert(views(paths@) =~= Seq::<Seq<char>>::empty());
    while i < config.configs.includes.len()
        invariant
            i <= inc.len(),
            inc == views(config.configs.includes@),
            exc == views(config.configs.excludes@),
            hv == opt_home(home),
            files@.len() == inc.len(),
            config_paths(inc, exc, hv, files@, i as nat) == Ok::<Seq<Seq<char>>, Seq<char>>(views(paths@)),
        decreases inc.len() - i,
    {
        let pattern = config.configs.includes[i].as_str();
        assert(inc[i as int] == pattern@);
        let e = expand_home(pattern, home);
        if str_contains(pattern, "*") {
            match crate::context::parent_of(e.as_str()) {
                None => {
                    proof {
                        lemma_config_err_persists(inc, exc, hv, files@, inc.len(), (i + 1) as nat);
                    }
                    return Err(K8pkError::InvalidKubeconfig(concat("invalid pattern: ", pattern)));
                },
                Some(_) => {},
            }
            match &files[i] {
                PatternFiles::Glob { dir_exists, entries } => {
                    if *dir_exists {
                        match crate::context::glob_test(e.as_str(), e.as_str()) {
                            None => {
                                proof {
                                    lemma_config_err_persists(inc, exc, hv, files@, inc.len(), (i + 1) as nat);
                                }
                                return Err(K8pkError::InvalidKubeconfig(concat("invalid glob: ", pattern)));
                            },
                            Some(_) => {},
                        }
                        match add_matching_entries(&mut paths, e.as_str(), &config.configs.excludes, home, entries) {
                            Err(err) => {
                                proof {
                                    lemma_config_err_persists(inc, exc, hv, files@, inc.len(), (i + 1) as nat);
                                }
                                return Err(err);
                            },
                            Ok(()) => {},
                        }
                    }
                },
                PatternFiles::Direct { .. } => {},
            }
        } else {
            match &files[i] {
                PatternFiles::Direct { is_file } => {
                    if *is_file {
                        match match_globs(e.as_str(), config.configs.excludes.as_slice(), home) {
                            Err(err) => {
                                proof {
                                    lemma_config_err_persists(inc, exc, hv, files@, inc.len(), (i + 1) as nat);
                                }
                                return Err(err);
                            },
                            Ok(true) => {},
                            Ok(false) => {
                                if !holds_path_in(&paths, e.as_str()) {
                                    let ghost before = paths@;
                                    paths.push(e);
                                    assert(views(paths@) =~= views(before).push(expanded(pattern@, hv)));
                                }
                            },
                        }
                    }
                },
                PatternFiles::Glob { .. } => {},
            }
        }
        i = i + 1;
    }
    Ok(paths)
}

// ---------------------------------------------------------------------------
// The Kubernetes command-line tool
// ---------------------------------------------------------------------------

/// The command-line tool to use: `oc` when it is installed, else `kubectl`.
pub fn choose_k8s_cli(oc_found: bool, kubectl_found: bool) -> (r: Result<&'static str, K8pkError>)
    ensures
        oc_found ==> (r matches Ok(c) && c@ == "oc"@),
        !oc_found && kubectl_found ==> (r matches Ok(c) && c@ == "kubectl"@),
        !oc_found && !kubectl_found ==> (r matches Err(e) && e.kind() == ErrorKind::NoK8sCli),
{
    if oc_found {
        Ok("oc")
    } else if kubectl_found {
        Ok("kubectl")
    } else {
        Err(K8pkError::NoK8sCli)
    }
}

/// The error for a failed namespace listing: the tool's name and its error
/// output, trimmed.
pub fn namespaces_failed(cli: &str, stderr: &str) -> (r: K8pkError)
    ensures
        r.is(ErrorKind::CommandFailed, cli@ + " get ns failed: "@ + trim(stderr@)),
{
    let a = concat(cli, " get ns failed: ");
    let t = str_trim(stderr);
    K8pkError::CommandFailed(concat(a.as_str(), t.as_str()))
}

/// The names present among the listed namespaces.
pub open spec fn present_names(names: Seq<Option<String>>) -> Seq<Seq<char>>
    decreases names.len(),
{
    if names.len() == 0 {
        Seq::empty()
    } else {
        let prev = present_names(names.drop_last());
        match names.last() {
            Some(n) => prev.push(n@),
            None => prev,
        }
    }
}

/// The namespace names, sorted, from the names the listing gave each item
/// (none where an item has no name).
pub fn namespace_list(names: Vec<Option<String>>) -> (r: Vec<String>)
    ensures
        views(r@).to_multiset() == present_names(names@).to_multiset(),
        forall|i: int, j: int| 0 <= i < j < r@.len() ==> str_le(#[trigger] views(r@)[i], #[trigger] views(r@)[j]),
{
    let mut out: Vec<String> = Vec::new();
    let mut i: usize = 0;
    while i < names.len()
        invariant
            i <= names@.len(),
            views(out@) == present_names(names@.take(i as int)),
        decreases names.len() - i,
    {
        proof {
            assert(names@.take(i + 1).drop_last() =~= names@.take(i as int));
            assert(names@.take(i + 1).last() == names@[i as int]);
        }
        match &names[i] {
            Some(n) => {
                let ghost before = out@;
                out.push(n.clone());
                assert(views(out@) =~= views(before).push(n@));
            },
            None => {},
        }
        i = i + 1;
    }
    assert(names@.take(names@.len() as int) =~= names@);
    sort_strings(out)
}

// ---------------------------------------------------------------------------
// Directory scanning
// ---------------------------------------------------------------------------

/// An entry of a scanned directory: its path, its file name (when it has
/// one that is valid UTF-8) and whether it is a file.
#[derive(Debug, Clone)]
pub struct ScannedEntry {
    pub path: String,
    pub file_name: Option<String>,
    pub is_file: bool,
}

/// The entries a directory scan takes as kubeconfigs: files called `config`
/// or ending in `.yaml` or `.yml`, in the order listed.
pub open spec fn scanned_configs(entries: Seq<ScannedEntry>) -> Seq<Seq<char>>
    decreases entries.len(),
{
    if entries.len() == 0 {
        Seq::empty()
    } else {
        let prev = scanned_configs(entries.drop_last());
        let e = entries.last();
        let named_config = match e.file_name {
            Some(n) => crate::kubeconfig::is_kubeconfig_name(n@),
            None => false,
        };
        if e.is_file && named_config {
            prev.push(e.path@)
        } else {
            prev
        }
    }
}

/// The kubeconfig files among a directory's entries (none for a missing
/// directory, whose entries are none).
pub fn scan_directory(entries: &[ScannedEntry]) -> (r: Vec<String>)
    ensures
        views(r@) == scanned_configs(entries@),
{
    let mut out: Vec<String> = Vec::new();
    let mut i: usize = 0;
    while i < entries.len()
        invariant
            i <= entries@.len(),
            views(out@) == scanned_configs(entries@.take(i as int)),
        decreases entries.len() - i,
    {
        proof {
            assert(entries@.take(i + 1).drop_last() =~= entries@.take(i as int));
            assert(entries@.take(i + 1).last() == entries@[i as int]);
        }
        let e = &entries[i];
        let is_config = match &e.file_name {
            Some(n) => crate::kubeconfig::is_kubeconfig_file_name(n.as_str()),
            None => false,
        };
        if e.is_file && is_config {
            let ghost before = out@;
            out.push(e.path.clone());
            assert(views(out@) =~= views(before).push(e.path@));
        }
        i = i + 1;
    }
    assert(entries@.take(entries@.len() as int) =~= entries@);
    out
}

} // verus!
