//! The k8pk configuration: kubeconfig discovery patterns, hooks, aliases,
//! picker and tmux settings, and the template a new config file starts from.

use vstd::prelude::*;
use crate::strmap::StrMap;
use crate::text::{owned, str_eq, views};

verus! {

/// K8pk configuration structure.
#[derive(Debug)]
pub struct K8pkConfig {
    pub configs: ConfigsSection,
    pub hooks: Option<HooksSection>,
    pub aliases: Option<StrMap<String>>,
    pub pick: Option<PickSection>,
    pub tmux: Option<TmuxSection>,
    /// Context names or globs whose clusters are reached without TLS
    /// verification.
    pub insecure_contexts: Option<Vec<String>>,
}

/// Hooks configuration section.
#[derive(Debug, Clone)]
pub struct HooksSection {
    pub start_ctx: Option<String>,
    pub stop_ctx: Option<String>,
}

/// Pick configuration section.
#[derive(Debug, Clone)]
pub struct PickSection {
    /// Show only clusters (group contexts by base cluster name).
    pub clusters_only: bool,
}

/// Tmux configuration section.
#[derive(Debug, Clone)]
pub struct TmuxSection {
    /// `windows` or `sessions`.
    pub mode: String,
    /// Template for window and session names; `{context}` stands for the context.
    pub name_template: Option<String>,
}

/// Configs section for kubeconfig file discovery.
#[derive(Debug, Clone)]
pub struct ConfigsSection {
    pub includes: Vec<String>,
    pub excludes: Vec<String>,
}

/// The default include patterns.
pub open spec fn default_includes() -> Seq<Seq<char>> {
    seq![
        "~/.kube/config"@,
        "~/.kube/*.yml"@,
        "~/.kube/*.yaml"@,
        "~/.kube/configs/*.yml"@,
        "~/.kube/configs/*.yaml"@,
    ]
}

/// The default exclude patterns.
pub open spec fn default_excludes() -> Seq<Seq<char>> {
    seq!["~/.kube/k8pk.yaml"@]
}

/// The kubeconfig files looked for when the config names none.
pub fn default_include_patterns() -> (r: Vec<String>)
    ensures
        views(r@) == default_includes(),
{
    let mut r: Vec<String> = Vec::new();
    r.push(owned("~/.kube/config"));
    r.push(owned("~/.kube/*.yml"));
    r.push(owned("~/.kube/*.yaml"));
    r.push(owned("~/.kube/configs/*.yml"));
    r.push(owned("~/.kube/configs/*.yaml"));
    assert(views(r@) =~= default_includes());
    r
}

/// The files left out when the config names none.
pub fn default_exclude_patterns() -> (r: Vec<String>)
    ensures
        views(r@) == default_excludes(),
{
    let mut r: Vec<String> = Vec::new();
    r.push(owned("~/.kube/k8pk.yaml"));
    assert(views(r@) =~= default_excludes());
    r
}

impl Default for ConfigsSection {
    fn default() -> (r: ConfigsSection)
        ensures
            views(r.includes@) == default_includes(),
            views(r.excludes@) == default_excludes(),
    {
        ConfigsSection { includes: default_include_patterns(), excludes: default_exclude_patterns() }
    }
}

impl Default for HooksSection {
    fn default() -> (r: HooksSection)
        ensures
            r.start_ctx is None,
            r.stop_ctx is None,
    {
        HooksSection { start_ctx: None, stop_ctx: None }
    }
}

impl Default for PickSection {
    fn default() -> (r: PickSection)
        ensures
            !r.clusters_only,
    {
        PickSection { clusters_only: false }
    }
}

impl Default for K8pkConfig {
    fn default() -> (r: K8pkConfig)
        ensures
            views(r.configs.includes@) == default_includes(),
            views(r.configs.excludes@) == default_excludes(),
            r.hooks is None,
            r.aliases is None,
            r.pick is None,
            r.tmux is None,
            r.insecure_contexts is None,
    {
        K8pkConfig {
            configs: ConfigsSection::default(),
            hooks: None,
            aliases: None,
            pick: None,
            tmux: None,
            insecure_contexts: None,
        }
    }
}

/// The context an alias stands for, or the name itself.
pub open spec fn resolved_alias(aliases: Option<Map<Seq<char>, Seq<char>>>, ctx: Seq<char>) -> Seq<char> {
    match aliases {
        Some(m) => if m.contains_key(ctx) {
            m[ctx]
        } else {
            ctx
        },
        None => ctx,
    }
}

/// The aliases of a config, if it has any.
pub open spec fn config_aliases(config: Option<&K8pkConfig>) -> Option<Map<Seq<char>, Seq<char>>> {
    match config {
        Some(c) => match c.aliases {
            Some(a) => Some(a@),
            None => None,
        },
        None => None,
    }
}

/// The aliases of a config are well formed.
pub open spec fn aliases_wf(config: Option<&K8pkConfig>) -> bool {
    match config {
        Some(c) => match c.aliases {
            Some(a) => a.wf(),
            None => true,
        },
        None => true,
    }
}

/// Resolves a context alias to its full name (with no config, or no such
/// alias, the name stands for itself).
pub fn resolve_alias(config: Option<&K8pkConfig>, ctx: &str) -> (r: String)
    requires
        aliases_wf(config),
    ensures
        r@ == resolved_alias(config_aliases(config), ctx@),
{
    if let Some(c) = config {
        if let Some(aliases) = &c.aliases {
            if let Some(resolved) = aliases.get(ctx) {
                return owned(resolved.as_str());
            }
        }
    }
    owned(ctx)
}

/// The template a new config file starts from.
pub open spec fn template_text() -> Seq<char> {
    "# k8pk configuration file
# Default location: ~/.config/k8pk/config.yaml (XDG)
# Legacy location:  ~/.kube/k8pk.yaml (still supported)
# All parameters are optional and have sensible defaults

# Kubeconfig file discovery patterns
# These patterns are used to find kubeconfig files to load
configs:
  # Include patterns (globs supported, ~ expands to home directory)
  include:
    - \"~/.kube/config\"
    - \"~/.kube/*.yml\"
    - \"~/.kube/*.yaml\"
    - \"~/.kube/configs/*.yml\"
    - \"~/.kube/configs/*.yaml\"
  
  # Exclude patterns (files matching these won't be loaded)
  exclude:
    - \"~/.kube/k8pk.yaml\"

# Shell hooks (commands to run when entering/leaving contexts)
# Uncomment and customize as needed
# hooks:
#   # Command to run when switching to a context
#   # Example: \"notify-send 'Switched to {}'\"
#   start_ctx: \"\"
#   
#   # Command to run when leaving a context
#   # Example: \"echo 'Leaving context'\"
#   stop_ctx: \"\"

# Context aliases (short names for long context names)
# Uncomment and add your aliases:
# aliases:
#   prod: \"arn:aws:eks:us-east-1:123456789:cluster/production\"
#   dev: \"gke_my-project_us-central1_dev-cluster\"
#   staging: \"ocp-staging/api.example.com:6443/admin\"

# Picker configuration
# Uncomment to enable clusters_only mode:
# pick:
#   # When true, shows only clusters (groups contexts by base cluster name)
#   # instead of showing all namespace-specific contexts
#   # Useful when you have thousands of namespace contexts
#   clusters_only: false
"@
}

/// Generates the default config template with comments.
pub fn generate_template() -> (r: String)
    ensures
        r@ == template_text(),
{
    owned(
        "# k8pk configuration file
# Default location: ~/.config/k8pk/config.yaml (XDG)
# Legacy location:  ~/.kube/k8pk.yaml (still supported)
# All parameters are optional and have sensible defaults

# Kubeconfig file discovery patterns
# These patterns are used to find kubeconfig files to load
configs:
  # Include patterns (globs supported, ~ expands to home directory)
  include:
    - \"~/.kube/config\"
    - \"~/.kube/*.yml\"
    - \"~/.kube/*.yaml\"
    - \"~/.kube/configs/*.yml\"
    - \"~/.kube/configs/*.yaml\"
  
  # Exclude patterns (files matching these won't be loaded)
  exclude:
    - \"~/.kube/k8pk.yaml\"

# Shell hooks (commands to run when entering/leaving contexts)
# Uncomment and customize as needed
# hooks:
#   # Command to run when switching to a context
#   # Example: \"notify-send 'Switched to {}'\"
#   start_ctx: \"\"
#   
#   # Command to run when leaving a context
#   # Example: \"echo 'Leaving context'\"
#   stop_ctx: \"\"

# Context aliases (short names for long context names)
# Uncomment and add your aliases:
# aliases:
#   prod: \"arn:aws:eks:us-east-1:123456789:cluster/production\"
#   dev: \"gke_my-project_us-central1_dev-cluster\"
#   staging: \"ocp-staging/api.example.com:6443/admin\"

# Picker configuration
# Uncomment to enable clusters_only mode:
# pick:
#   # When true, shows only clusters (groups contexts by base cluster name)
#   # instead of showing all namespace-specific contexts
#   # Useful when you have thousands of namespace contexts
#   clusters_only: false
",
    )
}

/// The config's `insecure_contexts` with `context` added when it is not
/// listed yet.
pub open spec fn with_insecure_context(list: Option<Seq<Seq<char>>>, context: Seq<char>) -> Seq<Seq<char>> {
    match list {
        Some(l) => if l.contains(context) {
            l
        } else {
            l.push(context)
        },
        None => seq![context],
    }
}

/// Lists `context` in `insecure_contexts` (once), so that it is always
/// reached without TLS verification.
pub fn add_insecure_context(config: &mut K8pkConfig, context: &str)
    ensures
        final(config).insecure_contexts matches Some(v) && views(v@) == with_insecure_context(
            match old(config).insecure_contexts {
                Some(l) => Some(views(l@)),
                None => None,
            },
            context@,
        ),
        final(config).configs == old(config).configs,
        final(config).hooks == old(config).hooks,
        final(config).aliases == old(config).aliases,
        final(config).pick == old(config).pick,
        final(config).tmux == old(config).tmux,
{
    let mut list: Vec<String> = match config.insecure_contexts.take() {
        Some(l) => l,
        None => Vec::new(),
    };
    let ghost before = list@;
    let mut found = false;
    let mut i: usize = 0;
    while i < list.len()
        invariant
            i <= list@.len(),
            list@ == before,
            found == views(before).take(i as int).contains(context@),
        decreases list.len() - i,
    {
        proof {
            assert(views(before).take(i + 1) =~= views(before).take(i as int).push(views(before)[i as int]));
            crate::kubeconfig_ops::lemma_contains_push(views(before).take(i as int), views(before)[i as int], context@);
        }
        if str_eq(list[i].as_str(), context) {
            found = true;
        }
        i = i + 1;
    }
    assert(views(before).take(before.len() as int) =~= views(before));
    if !found {
        list.push(owned(context));
        assert(views(list@) =~= views(before).push(context@));
    }
    config.insecure_contexts = Some(list);
}

} // verus!
