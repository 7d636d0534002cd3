//! The edits that the interactive configuration editor makes, one at a
//! time, and which sections of the configuration they mark as changed.

use vstd::prelude::*;
use crate::config::{default_excludes, default_includes, ConfigsSection, HooksSection, K8pkConfig, PickSection};
use crate::kubeconfig::opt_str;
use crate::kubeconfig_ops::contains_str;
use crate::strmap::StrMap;
use crate::text::{chars_of, concat, contains_seq, has_suffix, has_prefix, owned, str_contains, str_ends_with, str_starts_with, views, u64_to_string, decimal};

verus! {

/// Which sections of the configuration the editor has changed.
#[derive(Debug, Clone, Copy, PartialEq, Eq, Structural)]
pub struct ChangeTracker {
    pub picker_changed: bool,
    pub patterns_changed: bool,
    pub hooks_changed: bool,
    pub aliases_changed: bool,
}

/// The number of changed sections.
pub open spec fn changed_count(c: ChangeTracker) -> nat {
    (if c.picker_changed { 1nat } else { 0nat }) + (if c.patterns_changed { 1nat } else { 0nat }) + (if c.hooks_changed {
        1nat
    } else {
        0nat
    }) + (if c.aliases_changed { 1nat } else { 0nat })
}

impl Default for ChangeTracker {
    fn default() -> (r: ChangeTracker)
        ensures
            !r.picker_changed && !r.patterns_changed && !r.hooks_changed && !r.aliases_changed,
    {
        ChangeTracker { picker_changed: false, patterns_changed: false, hooks_changed: false, aliases_changed: false }
    }
}

impl ChangeTracker {
    /// How many sections changed.
    pub fn count(&self) -> (r: usize)
        ensures
            r == changed_count(*self),
    {
        let mut n: usize = 0;
        if self.picker_changed {
            n = n + 1;
        }
        if self.patterns_changed {
            n = n + 1;
        }
        if self.hooks_changed {
            n = n + 1;
        }
        if self.aliases_changed {
            n = n + 1;
        }
        n
    }

    /// Whether any section changed.
    pub fn has_changes(&self) -> (r: bool)
        ensures
            r == (changed_count(*self) > 0),
    {
        self.count() > 0
    }
}

/// The label of the editor's save entry: with the number of changed
/// sections when there are any.
pub fn save_label(changes: &ChangeTracker) -> (r: String)
    ensures
        r@ == if changed_count(*changes) > 0 {
            "Save and exit ("@ + decimal(changed_count(*changes)) + ")"@
        } else {
            "Save and exit"@
        },
{
    if changes.has_changes() {
        let n = u64_to_string(changes.count() as u64);
        let a = concat("Save and exit (", n.as_str());
        concat(a.as_str(), ")")
    } else {
        owned("Save and exit")
    }
}

/// Why a kubeconfig pattern is refused, if it is: it is empty, or it is
/// neither a path (`~/`, `/`), a glob (`*`) nor a `.yaml`/`.yml` file name.
pub open spec fn pattern_problem(p: Seq<char>) -> Option<Seq<char>> {
    if p.len() == 0 {
        Some("Pattern cannot be empty"@)
    } else if has_prefix(p, "~/"@) || has_prefix(p, "/"@) || contains_seq(p, "*"@) {
        None
    } else if contains_seq(p, "."@) && (has_suffix(p, ".yaml"@) || has_suffix(p, ".yml"@)) {
        None
    } else {
        Some("Pattern should be a file path (with ~/ or /) or use glob patterns (*)"@)
    }
}

/// Checks a kubeconfig pattern typed into the editor.
pub fn validate_pattern(pattern: &str) -> (r: Result<(), String>)
    ensures
        match pattern_problem(pattern@) {
            Some(m) => r matches Err(e) && e@ == m,
            None => r is Ok,
        },
{
    if chars_of(pattern).len() == 0 {
        return Err(owned("Pattern cannot be empty"));
    }
    if str_starts_with(pattern, "~/") || str_starts_with(pattern, "/") || str_contains(pattern, "*") {
        Ok(())
    } else if str_contains(pattern, ".") && (str_ends_with(pattern, ".yaml") || str_ends_with(pattern, ".yml")) {
        Ok(())
    } else {
        Err(owned("Pattern should be a file path (with ~/ or /) or use glob patterns (*)"))
    }
}

/// Why an alias name is refused, if it is: it is empty or holds a space.
pub open spec fn alias_name_problem(a: Seq<char>) -> Option<Seq<char>> {
    if a.len() == 0 {
        Some("Alias name cannot be empty"@)
    } else if contains_seq(a, " "@) {
        Some("Alias name cannot contain spaces"@)
    } else {
        None
    }
}

/// Checks an alias name typed into the editor.
pub fn validate_alias_name(alias: &str) -> (r: Result<(), String>)
    ensures
        match alias_name_problem(alias@) {
            Some(m) => r matches Err(e) && e@ == m,
            None => r is Ok,
        },
{
    if chars_of(alias).len() == 0 {
        Err(owned("Alias name cannot be empty"))
    } else if str_contains(alias, " ") {
        Err(owned("Alias name cannot contain spaces"))
    } else {
        Ok(())
    }
}

/// The picker's `clusters_only` setting; off when there is no picker section.
pub open spec fn clusters_only_of(pick: Option<PickSection>) -> bool {
    match pick {
        Some(p) => p.clusters_only,
        None => false,
    }
}

/// Sets the picker's `clusters_only`; a different value replaces the picker
/// section and marks it changed. Returns whether it changed.
pub fn set_clusters_only(config: &mut K8pkConfig, changes: &mut ChangeTracker, value: bool) -> (r: bool)
    ensures
        r == (value != clusters_only_of(old(config).pick)),
        r ==> final(config).pick == Some(PickSection { clusters_only: value }),
        !r ==> final(config).pick == old(config).pick,
        final(config).configs == old(config).configs,
        final(config).hooks == old(config).hooks,
        final(config).aliases == old(config).aliases,
        final(config).tmux == old(config).tmux,
        final(config).insecure_contexts == old(config).insecure_contexts,
        *final(changes) == (ChangeTracker { picker_changed: old(changes).picker_changed || r, ..*old(changes) }),
{
    let current = match &config.pick {
        Some(p) => p.clusters_only,
        None => false,
    };
    if value != current {
        config.pick = Some(PickSection { clusters_only: value });
        changes.picker_changed = true;
        true
    } else {
        false
    }
}

/// Adds a pattern to the included (or excluded) patterns; an empty pattern is
/// ignored. Marks the patterns changed when one is added.
pub fn add_pattern(config: &mut K8pkConfig, changes: &mut ChangeTracker, to_includes: bool, pattern: &str)
    ensures
        pattern@.len() > 0 && to_includes ==> views(final(config).configs.includes@) == views(old(config).configs.includes@).push(pattern@)
            && final(config).configs.excludes == old(config).configs.excludes,
        pattern@.len() > 0 && !to_includes ==> views(final(config).configs.excludes@) == views(old(config).configs.excludes@).push(pattern@)
            && final(config).configs.includes == old(config).configs.includes,
        pattern@.len() == 0 ==> final(config).configs == old(config).configs,
        final(config).hooks == old(config).hooks,
        final(config).aliases == old(config).aliases,
        final(config).pick == old(config).pick,
        final(config).tmux == old(config).tmux,
        final(config).insecure_contexts == old(config).insecure_contexts,
        *final(changes) == (ChangeTracker {
            patterns_changed: old(changes).patterns_changed || pattern@.len() > 0,
            ..*old(changes)
        }),
{
    if chars_of(pattern).len() > 0 {
        if to_includes {
            let ghost before = views(config.configs.includes@);
            config.configs.includes.push(owned(pattern));
            assert(views(config.configs.includes@) =~= before.push(pattern@));
        } else {
            let ghost before = views(config.configs.excludes@);
            config.configs.excludes.push(owned(pattern));
            assert(views(config.configs.excludes@) =~= before.push(pattern@));
        }
        changes.patterns_changed = true;
    }
}

/// The patterns of `s` that are not among `selected`, in order.
pub open spec fn unselected(s: Seq<Seq<char>>, selected: Seq<Seq<char>>) -> Seq<Seq<char>>
    decreases s.len(),
{
    if s.len() == 0 {
        Seq::empty()
    } else {
        let prev = unselected(s.drop_last(), selected);
        if selected.contains(s.last()) {
            prev
        } else {
            prev.push(s.last())
        }
    }
}

fn keep_unselected(v: &Vec<String>, selected: &[String]) -> (r: Vec<String>)
    ensures
        views(r@) == unselected(views(v@), views(selected@)),
{
    let ghost vv = views(v@);
    let mut r: Vec<String> = Vec::new();
    let mut i: usize = 0;
    while i < v.len()
        invariant
            i <= v@.len(),
            vv == views(v@),
            views(r@) == unselected(vv.take(i as int), views(selected@)),
        decreases v.len() - i,
    {
        proof {
            assert(vv.take(i + 1).drop_last() =~= vv.take(i as int));
            assert(vv.take(i + 1).last() == vv[i as int]);
        }
        if !contains_str(selected, v[i].as_str()) {
            let ghost before = views(r@);
            r.push(v[i].clone());
            assert(views(r@) =~= before.push(vv[i as int]));
        }
        i = i + 1;
    }
    assert(vv.take(vv.len() as int) =~= vv);
    r
}

/// Removes the selected patterns from the included (or excluded) patterns; with
/// none selected nothing changes. Marks the patterns changed otherwise.
pub fn remove_patterns(config: &mut K8pkConfig, changes: &mut ChangeTracker, to_includes: bool, selected: &[String])
    ensures
        selected@.len() > 0 && to_includes ==> views(final(config).configs.includes@) == unselected(
            views(old(config).configs.includes@),
            views(selected@),
        ) && final(config).configs.excludes == old(config).configs.excludes,
        selected@.len() > 0 && !to_includes ==> views(final(config).configs.excludes@) == unselected(
            views(old(config).configs.excludes@),
            views(selected@),
        ) && final(config).configs.includes == old(config).configs.includes,
        selected@.len() == 0 ==> final(config).configs == old(config).configs,
        final(config).hooks == old(config).hooks,
        final(config).aliases == old(config).aliases,
        final(config).pick == old(config).pick,
        final(config).tmux == old(config).tmux,
        final(config).insecure_contexts == old(config).insecure_contexts,
        *final(changes) == (ChangeTracker {
            patterns_changed: old(changes).patterns_changed || selected@.len() > 0,
            ..*old(changes)
        }),
{
    if selected.len() > 0 {
        if to_includes {
            config.configs.includes = keep_unselected(&config.configs.includes, selected);
        } else {
            config.configs.excludes = keep_unselected(&config.configs.excludes, selected);
        }
        changes.patterns_changed = true;
    }
}

/// Puts the default to_includes and exclude patterns back, and marks the
/// patterns changed.
pub fn reset_patterns(config: &mut K8pkConfig, changes: &mut ChangeTracker)
    ensures
        views(final(config).configs.includes@) == default_includes(),
        views(final(config).configs.excludes@) == default_excludes(),
        final(config).hooks == old(config).hooks,
        final(config).aliases == old(config).aliases,
        final(config).pick == old(config).pick,
        final(config).tmux == old(config).tmux,
        final(config).insecure_contexts == old(config).insecure_contexts,
        *final(changes) == (ChangeTracker { patterns_changed: true, ..*old(changes) }),
{
    config.configs = ConfigsSection::default();
    changes.patterns_changed = true;
}

/// A hook command as stored: none for an empty command.
pub open spec fn hook_value(s: Seq<char>) -> Option<Seq<char>> {
    if s.len() == 0 {
        None
    } else {
        Some(s)
    }
}

/// The hooks' start and stop commands.
pub open spec fn hook_commands(h: Option<HooksSection>) -> (Option<Seq<char>>, Option<Seq<char>>) {
    match h {
        Some(x) => (opt_str(x.start_ctx), opt_str(x.stop_ctx)),
        None => (None, None),
    }
}

/// Sets the start and stop hook commands (an empty one removes it; with
/// neither left the hooks section goes). A hook counts as changed unless
/// it was already set to exactly the text given. Returns whether any did.
pub fn set_hooks(config: &mut K8pkConfig, changes: &mut ChangeTracker, start: &str, stop: &str) -> (r: bool)
    ensures
        r == (hook_commands(old(config).hooks).0 != Some(start@) || hook_commands(old(config).hooks).1 != Some(
            stop@,
        )),
        hook_commands(final(config).hooks) == (hook_value(start@), hook_value(stop@)),
        (final(config).hooks is None) == (start@.len() == 0 && stop@.len() == 0),
        final(config).configs == old(config).configs,
        final(config).aliases == old(config).aliases,
        final(config).pick == old(config).pick,
        final(config).tmux == old(config).tmux,
        final(config).insecure_contexts == old(config).insecure_contexts,
        *final(changes) == (ChangeTracker { hooks_changed: old(changes).hooks_changed || r, ..*old(changes) }),
{
    let (old_start, old_stop) = match &config.hooks {
        Some(h) => (crate::kubeconfig::copy_opt_str(&h.start_ctx), crate::kubeconfig::copy_opt_str(&h.stop_ctx)),
        None => (None, None),
    };
    let start_changed = match &old_start {
        Some(s) => !crate::text::str_eq(s.as_str(), start),
        None => true,
    };
    let stop_changed = match &old_stop {
        Some(s) => !crate::text::str_eq(s.as_str(), stop),
        None => true,
    };
    let new_start = if chars_of(start).len() == 0 {
        None
    } else {
        Some(owned(start))
    };
    let new_stop = if chars_of(stop).len() == 0 {
        None
    } else {
        Some(owned(stop))
    };
    if new_start.is_none() && new_stop.is_none() {
        config.hooks = None;
    } else {
        config.hooks = Some(HooksSection { start_ctx: new_start, stop_ctx: new_stop });
    }
    let changed = start_changed || stop_changed;
    if changed {
        changes.hooks_changed = true;
    }
    changed
}

/// The aliases, as a map (empty when there is no aliases section).
pub open spec fn alias_map(a: Option<StrMap<String>>) -> Map<Seq<char>, Seq<char>> {
    match a {
        Some(m) => m@,
        None => Map::empty(),
    }
}

/// The aliases section is well formed where it is there.
pub open spec fn aliases_ok(a: Option<StrMap<String>>) -> bool {
    match a {
        Some(m) => m.wf(),
        None => true,
    }
}

/// Adds (or replaces) an alias, creating the aliases section when needed,
/// and marks the aliases changed.
pub fn add_alias(config: &mut K8pkConfig, changes: &mut ChangeTracker, alias: &str, context: &str)
    requires
        aliases_ok(old(config).aliases),
    ensures
        final(config).aliases is Some,
        aliases_ok(final(config).aliases),
        alias_map(final(config).aliases) == alias_map(old(config).aliases).insert(alias@, context@),
        final(config).configs == old(config).configs,
        final(config).hooks == old(config).hooks,
        final(config).pick == old(config).pick,
        final(config).tmux == old(config).tmux,
        final(config).insecure_contexts == old(config).insecure_contexts,
        *final(changes) == (ChangeTracker { aliases_changed: true, ..*old(changes) }),
{
    let mut m = match config.aliases.take() {
        Some(m) => m,
        None => StrMap::new(),
    };
    m.insert(owned(alias), owned(context));
    config.aliases = Some(m);
    changes.aliases_changed = true;
}

/// Removes the selected aliases; when none are left the aliases section
/// goes. With none selected, or no aliases, nothing changes; otherwise the
/// aliases are marked changed.
pub fn remove_aliases(config: &mut K8pkConfig, changes: &mut ChangeTracker, selected: &[String])
    requires
        aliases_ok(old(config).aliases),
    ensures
        aliases_ok(final(config).aliases),
        old(config).aliases is None || alias_map(old(config).aliases).len() == 0 || selected@.len() == 0
            ==> final(config).aliases == old(config).aliases && *final(changes) == *old(changes),
        !(old(config).aliases is None || alias_map(old(config).aliases).len() == 0 || selected@.len() == 0) ==> {
            &&& alias_map(final(config).aliases) == alias_map(old(config).aliases).remove_keys(views(selected@).to_set())
            &&& (final(config).aliases is None) == (alias_map(final(config).aliases).len() == 0)
            &&& *final(changes) == (ChangeTracker { aliases_changed: true, ..*old(changes) })
        },
        final(config).configs == old(config).configs,
        final(config).hooks == old(config).hooks,
        final(config).pick == old(config).pick,
        final(config).tmux == old(config).tmux,
        final(config).insecure_contexts == old(config).insecure_contexts,
{
    let nonempty = match &config.aliases {
        Some(m) => !m.is_empty(),
        None => false,
    };
    if !nonempty || selected.len() == 0 {
        return;
    }
    let mut m = config.aliases.take().unwrap();
    let ghost m0 = m@;
    let ghost sel = views(selected@);
    let mut i: usize = 0;
    while i < selected.len()
        invariant
            i <= selected@.len(),
            sel == views(selected@),
            m.wf(),
            forall|k: Seq<char>| #[trigger] m@.contains_key(k) <==> m0.contains_key(k) && !sel.take(i as int).contains(k),
            forall|k: Seq<char>| #[trigger] m@.contains_key(k) ==> m@[k] == m0[k],
        decreases selected.len() - i,
    {
        let ghost before = m@;
        let _ = m.remove(selected[i].as_str());
        proof {
            let t0 = sel.take(i as int);
            let t1 = sel.take(i + 1);
            assert(t1 =~= t0.push(sel[i as int]));
            assert forall|k: Seq<char>| #[trigger] m@.contains_key(k) <==> m0.contains_key(k) && !t1.contains(k) by {
                if t1.contains(k) && !t0.contains(k) {
                    let j = choose|j: int| 0 <= j < t1.len() && #[trigger] t1[j] == k;
                    if j < i {
                        assert(t0[j] == k);
                    }
                }
                if t0.contains(k) {
                    let j = choose|j: int| 0 <= j < t0.len() && #[trigger] t0[j] == k;
                    assert(t1[j] == k);
                }
                if k == sel[i as int] {
                    assert(t1[i as int] == k);
                }
            }
        }
        i = i + 1;
    }
    proof {
        assert(sel.take(sel.len() as int) =~= sel);
        assert(m@ =~= m0.remove_keys(sel.to_set()));
        m.lemma_key_order();
    }
    if m.is_empty() {
        proof {
            assert(m.key_order() =~= Seq::<Seq<char>>::empty());
            assert(m@.dom() =~= Set::<Seq<char>>::empty());
            assert(m@ =~= Map::<Seq<char>, Seq<char>>::empty());
        }
        config.aliases = None;
    } else {
        config.aliases = Some(m);
    }
    changes.aliases_changed = true;
}

/// Removes every alias and marks the aliases changed.
pub fn clear_aliases(config: &mut K8pkConfig, changes: &mut ChangeTracker)
    ensures
        final(config).aliases is None,
        final(config).configs == old(config).configs,
        final(config).hooks == old(config).hooks,
        final(config).pick == old(config).pick,
        final(config).tmux == old(config).tmux,
        final(config).insecure_contexts == old(config).insecure_contexts,
        *final(changes) == (ChangeTracker { aliases_changed: true, ..*old(changes) }),
{
    config.aliases = None;
    changes.aliases_changed = true;
}

/// Puts every setting back to its default and marks every section changed.
pub fn reset_to_defaults(config: &mut K8pkConfig, changes: &mut ChangeTracker)
    ensures
        views(final(config).configs.includes@) == default_includes(),
        views(final(config).configs.excludes@) == default_excludes(),
        final(config).hooks is None,
        final(config).aliases is None,
        final(config).pick is None,
        final(config).tmux is None,
        final(config).insecure_contexts is None,
        final(changes).picker_changed && final(changes).patterns_changed && final(changes).hooks_changed
            && final(changes).aliases_changed,
{
    *config = K8pkConfig::default();
    *changes = ChangeTracker { picker_changed: true, patterns_changed: true, hooks_changed: true, aliases_changed: true };
}

/// The alias menu: viewing and removing only when there are aliases.
pub fn alias_menu(config: &K8pkConfig) -> (r: Vec<&'static str>)
    requires
        aliases_ok(config.aliases),
    ensures
        alias_map(config.aliases).len() > 0 ==> r@.map_values(|s: &str| s@) == seq![
            "View aliases"@,
            "Add alias"@,
            "Remove alias"@,
            "Clear all aliases"@,
            "Back"@,
        ],
        alias_map(config.aliases).len() == 0 ==> r@.map_values(|s: &str| s@) == seq!["Add alias"@, "Back"@],
{
    let nonempty = match &config.aliases {
        Some(m) => !m.is_empty(),
        None => false,
    };
    if nonempty {
        let r = vec!["View aliases", "Add alias", "Remove alias", "Clear all aliases", "Back"];
        assert(r@.map_values(|s: &str| s@) =~= seq![
            "View aliases"@,
            "Add alias"@,
            "Remove alias"@,
            "Clear all aliases"@,
            "Back"@,
        ]);
        r
    } else {
        let r = vec!["Add alias", "Back"];
        assert(r@.map_values(|s: &str| s@) =~= seq!["Add alias"@, "Back"@]);
        r
    }
}

} // verus!
