//! What the kubeconfig commands report once done, line by line, and the
//! name of the backup taken before a destructive change.

use vstd::prelude::*;
use crate::context::{join_path_exec, path_join};
use crate::kubeconfig_ops::{
    CleanupResult, CopyContextResult, DiffResult, MergeResult, RemoveContextResult, RenameContextResult,
};
use crate::text::{concat, decimal, owned, u64_to_string, views};

verus! {

fn push_line(out: &mut Vec<String>, line: String)
    ensures
        views(final(out)@) == views(old(out)@).push(line@),
{
    let ghost before = views(out@);
    out.push(line);
    assert(views(out@) =~= before.push(line@));
}

/// Each item prefixed by `prefix`.
pub open spec fn prefixed(prefix: Seq<char>, items: Seq<Seq<char>>) -> Seq<Seq<char>>
    decreases items.len(),
{
    if items.len() == 0 {
        Seq::empty()
    } else {
        prefixed(prefix, items.drop_last()).push(prefix + items.last())
    }
}

fn push_prefixed(out: &mut Vec<String>, prefix: &str, items: &Vec<String>)
    ensures
        views(final(out)@) == views(old(out)@) + prefixed(prefix@, views(items@)),
{
    let ghost start = views(out@);
    let mut i: usize = 0;
    while i < items.len()
        invariant
            i <= items@.len(),
            views(out@) == start + prefixed(prefix@, views(items@).take(i as int)),
        decreases items.len() - i,
    {
        assert(views(items@).take(i + 1).drop_last() =~= views(items@).take(i as int));
        assert(views(items@).take(i + 1).last() == items@[i as int]@);
        push_line(out, concat(prefix, items[i].as_str()));
        assert(views(out@) =~= start + prefixed(prefix@, views(items@).take(i + 1)));
        i = i + 1;
    }
    assert(views(items@).take(items@.len() as int) =~= views(items@));
}

/// The report of a cleanup run.
pub open spec fn cleanup_lines(r: CleanupResult) -> Seq<Seq<char>> {
    if !r.found {
        seq!["No generated configs directory found"@]
    } else if r.dry_run {
        prefixed("Would remove: "@, views(r.removed@)) + seq![
            "Dry run: would remove "@ + decimal(r.removed@.len()) + " files, keep "@ + decimal(r.skipped as nat),
        ]
    } else {
        prefixed("Removed: "@, views(r.removed@)) + seq![
            "Cleaned up "@ + decimal(r.removed@.len()) + " files, kept "@ + decimal(r.skipped as nat),
        ]
    }
}

/// Reports a cleanup run.
pub fn cleanup_summary(r: &CleanupResult) -> (out: Vec<String>)
    ensures
        views(out@) == cleanup_lines(*r),
{
    let mut out: Vec<String> = Vec::new();
    assert(views(out@) =~= Seq::<Seq<char>>::empty());
    if !r.found {
        push_line(&mut out, owned("No generated configs directory found"));
        assert(views(out@) =~= cleanup_lines(*r));
        return out;
    }
    let n = u64_to_string(r.removed.len() as u64);
    let k = u64_to_string(r.skipped as u64);
    if r.dry_run {
        push_prefixed(&mut out, "Would remove: ", &r.removed);
        let a = concat("Dry run: would remove ", n.as_str());
        let b = concat(a.as_str(), " files, keep ");
        push_line(&mut out, concat(b.as_str(), k.as_str()));
    } else {
        push_prefixed(&mut out, "Removed: ", &r.removed);
        let a = concat("Cleaned up ", n.as_str());
        let b = concat(a.as_str(), " files, kept ");
        push_line(&mut out, concat(b.as_str(), k.as_str()));
    }
    assert(views(out@) =~= cleanup_lines(*r));
    out
}

/// The report of a merge written to a file; `None` when the merge was not
/// written to a file (its YAML is printed instead).
pub fn merge_summary(r: &MergeResult) -> (out: Option<String>)
    ensures
        match r.output {
            Some(o) => out matches Some(s) && s@ == "Merged "@ + decimal(r.files@.len()) + " files into "@ + o@,
            None => out is None,
        },
{
    match &r.output {
        Some(o) => {
            let n = u64_to_string(r.files.len() as u64);
            let a = concat("Merged ", n.as_str());
            let b = concat(a.as_str(), " files into ");
            Some(concat(b.as_str(), o.as_str()))
        },
        None => None,
    }
}

/// The report of a diff: what only one file has, and (unless only the
/// differences are asked for) what both have.
pub open spec fn diff_lines(r: DiffResult, diff_only: bool) -> Seq<Seq<char>> {
    (if r.only_in_1@.len() > 0 {
        seq!["Only in "@ + r.file1@ + ":"@] + prefixed("  - "@, views(r.only_in_1@))
    } else {
        Seq::empty()
    }) + (if r.only_in_2@.len() > 0 {
        seq!["Only in "@ + r.file2@ + ":"@] + prefixed("  + "@, views(r.only_in_2@))
    } else {
        Seq::empty()
    }) + if !diff_only && r.in_both@.len() > 0 {
        seq!["In both ("@ + decimal(r.in_both@.len()) + " contexts):"@] + prefixed("  = "@, views(r.in_both@))
    } else {
        Seq::empty()
    }
}

/// Reports a diff.
pub fn diff_summary(r: &DiffResult, diff_only: bool) -> (out: Vec<String>)
    ensures
        views(out@) == diff_lines(*r, diff_only),
{
    let mut out: Vec<String> = Vec::new();
    let ghost s0 = views(out@);
    assert(s0 =~= Seq::<Seq<char>>::empty());
    if r.only_in_1.len() > 0 {
        let a = concat("Only in ", r.file1.as_str());
        push_line(&mut out, concat(a.as_str(), ":"));
        push_prefixed(&mut out, "  - ", &r.only_in_1);
    }
    let ghost s1 = views(out@);
    if r.only_in_2.len() > 0 {
        let a = concat("Only in ", r.file2.as_str());
        push_line(&mut out, concat(a.as_str(), ":"));
        push_prefixed(&mut out, "  + ", &r.only_in_2);
    }
    let ghost s2 = views(out@);
    if !diff_only && r.in_both.len() > 0 {
        let n = u64_to_string(r.in_both.len() as u64);
        let a = concat("In both (", n.as_str());
        push_line(&mut out, concat(a.as_str(), " contexts):"));
        push_prefixed(&mut out, "  = ", &r.in_both);
    }
    assert(views(out@) =~= diff_lines(*r, diff_only));
    out
}

/// The report of a context removal.
pub open spec fn remove_lines(r: RemoveContextResult) -> Seq<Seq<char>> {
    if r.dry_run {
        prefixed("Would remove context: "@, views(r.removed_contexts@))
    } else {
        prefixed("Removed context: "@, views(r.removed_contexts@)) + prefixed(
            "Removed orphaned cluster: "@,
            views(r.removed_clusters@),
        ) + prefixed("Removed orphaned user: "@, views(r.removed_users@))
    }
}

/// Reports a context removal.
pub fn remove_context_summary(r: &RemoveContextResult) -> (out: Vec<String>)
    ensures
        views(out@) == remove_lines(*r),
{
    let mut out: Vec<String> = Vec::new();
    assert(views(out@) =~= Seq::<Seq<char>>::empty());
    if r.dry_run {
        push_prefixed(&mut out, "Would remove context: ", &r.removed_contexts);
    } else {
        push_prefixed(&mut out, "Removed context: ", &r.removed_contexts);
        push_prefixed(&mut out, "Removed orphaned cluster: ", &r.removed_clusters);
        push_prefixed(&mut out, "Removed orphaned user: ", &r.removed_users);
    }
    assert(views(out@) =~= remove_lines(*r));
    out
}

/// Reports a context rename.
pub fn rename_context_summary(r: &RenameContextResult) -> (out: String)
    ensures
        out@ == (if r.dry_run {
            "Would rename context: "@
        } else {
            "Renamed context: "@
        }) + r.old_name@ + " -> "@ + r.new_name@,
{
    let head = if r.dry_run {
        "Would rename context: "
    } else {
        "Renamed context: "
    };
    let a = concat(head, r.old_name.as_str());
    let b = concat(a.as_str(), " -> ");
    concat(b.as_str(), r.new_name.as_str())
}

/// Reports a context copy.
pub fn copy_context_summary(r: &CopyContextResult) -> (out: String)
    ensures
        out@ == (if r.dry_run {
            "Would copy context: "@
        } else {
            "Copied context: "@
        }) + r.context@ + " -> "@ + r.new_name@ + " ("@ + r.to_file@ + ")"@,
{
    let head = if r.dry_run {
        "Would copy context: "
    } else {
        "Copied context: "
    };
    let a = concat(head, r.context.as_str());
    let b = concat(a.as_str(), " -> ");
    let c = concat(b.as_str(), r.new_name.as_str());
    let d = concat(c.as_str(), " (");
    let e = concat(d.as_str(), r.to_file.as_str());
    concat(e.as_str(), ")")
}

/// Where the backup of a kubeconfig goes: beside it (in `.` when the path
/// has no directory), named `{file name}.bak.{timestamp}`.
pub fn backup_path(parent: Option<&str>, file_name: &str, timestamp: u64) -> (r: String)
    ensures
        r@ == path_join(
            match parent {
                Some(p) => p@,
                None => "."@,
            },
            file_name@ + ".bak."@ + decimal(timestamp as nat),
        ),
{
    let a = concat(file_name, ".bak.");
    let name = concat(a.as_str(), u64_to_string(timestamp).as_str());
    match parent {
        Some(p) => join_path_exec(p, name.as_str()),
        None => join_path_exec(".", name.as_str()),
    }
}

} // verus!
