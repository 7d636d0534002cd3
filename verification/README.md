# k8pk

A Kubernetes context picker: pick a context, get a shell (or exports) wired
to an isolated kubeconfig for it; log in to OpenShift, plain Kubernetes, GKE
and Rancher clusters; tidy, merge, lint and organize kubeconfig files.

## Layout

- `src/` — the library, written and proved with Verus. Every rule the tool
  follows lives here with its contract: kubeconfig pruning, merging, removal,
  renaming and copying; the context and namespace resolution and pickers;
  session checks; the re-login flow, as a state machine the program drives
  (`src/relogin_flow.rs`); where a Rancher login's credentials come from;
  login kubeconfigs for each cluster
  type; Rancher's API addresses and replies; the doctor's findings; the config
  editor's edits; and the reports each command prints. `src/laws.rs` states
  and proves properties that span several functions.
- `app/` — the `k8pk` program: command-line parsing, files, processes
  (`kubectl`, `oc`, `tmux`, shells), HTTP, prompts and colors. It performs
  what the library decides and hands back what came of it.
- `tests/` — tests of the library on concrete inputs.

A handful of calls into std and globset are trusted rather than proved; each
is a small `#[verifier::external_body]` function whose doc comment says what
its contract claims.
