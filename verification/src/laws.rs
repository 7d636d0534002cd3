//! Properties of the library as a whole: what its operations keep, undo and
//! leave unchanged, proved over the specifications its functions meet.

use vstd::prelude::*;
use crate::error::{closest, levenshtein, match_distance, min3, ranked, suggestion_threshold, take_at_most, at_distance};
use crate::kubeconfig::{is_unsafe_file_char, names, sanitized, NamedItemView};
use crate::kubeconfig_ops::{drop_named, merge_items, names_where};
use crate::tmux::tmux_safe;
use crate::kubeconfig::{context_namespace, context_refs, find_named, pruned, with_namespace, KubeConfigView};
use crate::kubeconfig::{cluster_insecure, insecure_cluster};
use crate::kubeconfig_ops::{all_issues, config_issues, count_level, issue, orphan_issues, source_issues, LintIssueView};
use crate::yaml::{entry_index, insert_entry, key_is, lookup, YamlView};
use crate::context::recorded;
use crate::sessions::{registered, without_pid, SessionView};
use crate::kubeconfig_ops::{after_removal, copied, filter_by, referenced, remaining_contexts};
use crate::organize::{context_type, of_type, type_order};
use crate::login_config::{adopted_contexts, login_kubeconfig, unique_by_name};
use crate::discovery::{config_paths, entries_step, pattern_step, FileEntry, PatternFiles};
use crate::kubeconfig::same_path;
use crate::config::resolved_alias;
use crate::text::{all_digits, decimal, digit_char, digits_value, parsed_decimal};
use crate::picker::{marked, unmarked};
use crate::login::LoginType;
use crate::rancher::server_base;
use crate::relogin::AuthView;
use crate::relogin_flow::{
    credential_prompt, relogin_begin, relogin_next, relogin_wf, ReloginActionView, ReloginEventView, ReloginPhase,
    ReloginStateView,
};
use crate::text::{contains_seq, has_prefix, lowercase, match_at};
use crate::kubeconfig::cluster_type;
use crate::login::login_type_for_url;
use crate::context::{exports_text, glob_hits, glob_match, glob_ok, is_glob, pattern_matches, substring_hits};
use crate::kubeconfig_ops::renamed;
use crate::login::tls_patterns;

verus! {

// ---------------------------------------------------------------------------
// Suggestions
// ---------------------------------------------------------------------------

/// The edit distance is symmetric: as far from `a` to `b` as from `b` to `a`.
pub proof fn law_edit_distance_symmetric(a: Seq<char>, b: Seq<char>)
    ensures
        levenshtein(a, b) == levenshtein(b, a),
    decreases a.len() + b.len(),
{
    if a.len() > 0 && b.len() > 0 {
        law_edit_distance_symmetric(a.drop_last(), b);
        law_edit_distance_symmetric(a, b.drop_last());
        law_edit_distance_symmetric(a.drop_last(), b.drop_last());
    }
}

/// A text is at distance zero from itself.
pub proof fn law_edit_distance_identity(a: Seq<char>)
    ensures
        levenshtein(a, a) == 0,
    decreases a.len(),
{
    if a.len() > 0 {
        law_edit_distance_identity(a.drop_last());
    }
}

/// Only equal texts are at distance zero.
pub proof fn law_edit_distance_zero_only_for_equal(a: Seq<char>, b: Seq<char>)
    ensures
        levenshtein(a, b) == 0 <==> a == b,
    decreases a.len() + b.len(),
{
    if a == b {
        law_edit_distance_identity(a);
    } else if a.len() > 0 && b.len() > 0 {
        law_edit_distance_zero_only_for_equal(a.drop_last(), b.drop_last());
        if levenshtein(a, b) == 0 {
            assert(levenshtein(a.drop_last(), b.drop_last()) == 0 && a.last() == b.last());
            assert(a =~= a.drop_last().push(a.last()));
            assert(b =~= b.drop_last().push(b.last()));
            assert(a == b);
        }
    } else if a.len() == 0 {
        assert(b.len() > 0) by {
            if b.len() == 0 {
                assert(a =~= b);
            }
        }
    } else {
        assert(b.len() == 0);
    }
}

/// The distance is at least the difference of the lengths.
proof fn lemma_levenshtein_lower(a: Seq<char>, b: Seq<char>)
    ensures
        levenshtein(a, b) >= a.len() - b.len(),
        levenshtein(a, b) >= b.len() - a.len(),
    decreases a.len() + b.len(),
{
    if a.len() > 0 && b.len() > 0 {
        lemma_levenshtein_lower(a.drop_last(), b);
        lemma_levenshtein_lower(a, b.drop_last());
        lemma_levenshtein_lower(a.drop_last(), b.drop_last());
    }
}

/// The triangle inequality: going from `a` to `c` by way of `b` is never
/// shorter than going directly.
pub proof fn law_edit_distance_triangle(a: Seq<char>, b: Seq<char>, c: Seq<char>)
    ensures
        levenshtein(a, c) <= levenshtein(a, b) + levenshtein(b, c),
    decreases a.len() + b.len() + c.len(),
{
    if a.len() == 0 {
        lemma_levenshtein_lower(b, c);
    } else if c.len() == 0 {
        lemma_levenshtein_lower(a, b);
    } else if b.len() == 0 {
        crate::error::lemma_levenshtein_bound(a, c);
    } else {
        let (a1, b1, c1) = (a.drop_last(), b.drop_last(), c.drop_last());
        let dab = levenshtein(a, b);
        let dbc = levenshtein(b, c);
        let xy: nat = if a.last() == b.last() { 0 } else { 1 };
        let yz: nat = if b.last() == c.last() { 0 } else { 1 };
        if dab == levenshtein(a1, b) + 1 {
            law_edit_distance_triangle(a1, b, c);
        } else if dbc == levenshtein(b, c1) + 1 {
            law_edit_distance_triangle(a, b, c1);
        } else if dab == levenshtein(a, b1) + 1 {
            if dbc == levenshtein(b1, c) + 1 {
                law_edit_distance_triangle(a, b1, c);
            } else {
                assert(dbc == levenshtein(b1, c1) + yz);
                law_edit_distance_triangle(a, b1, c1);
            }
        } else {
            assert(dab == levenshtein(a1, b1) + xy);
            if dbc == levenshtein(b1, c) + 1 {
                law_edit_distance_triangle(a1, b1, c);
            } else {
                assert(dbc == levenshtein(b1, c1) + yz);
                law_edit_distance_triangle(a1, b1, c1);
            }
        }
    }
}

/// The distance lies between the difference of the lengths and the longer
/// length.
pub proof fn law_edit_distance_bounds(a: Seq<char>, b: Seq<char>)
    ensures
        levenshtein(a, b) >= a.len() - b.len(),
        levenshtein(a, b) >= b.len() - a.len(),
        levenshtein(a, b) <= if a.len() >= b.len() { a.len() } else { b.len() },
{
    lemma_levenshtein_lower(a, b);
    crate::error::lemma_levenshtein_bound(a, b);
}

/// `y` is `x` with one character inserted, deleted or replaced.
pub open spec fn one_edit(x: Seq<char>, y: Seq<char>) -> bool {
    ||| exists|i: int, c: char| 0 <= i <= x.len() && y == #[trigger] x.insert(i, c)
    ||| exists|i: int| 0 <= i < x.len() && y == #[trigger] x.remove(i)
    ||| exists|i: int, c: char| 0 <= i < x.len() && y == #[trigger] x.update(i, c)
}

/// Each text of `s` is one edit away from the one before.
pub open spec fn edit_chain(s: Seq<Seq<char>>) -> bool {
    forall|i: int| 0 <= i && i + 1 < s.len() ==> one_edit(#[trigger] s[i], s[i + 1])
}

proof fn lemma_insert_one(x: Seq<char>, i: int, c: char)
    requires
        0 <= i <= x.len(),
    ensures
        levenshtein(x, x.insert(i, c)) <= 1,
    decreases x.len() - i,
{
    let y = x.insert(i, c);
    if i == x.len() {
        assert(y.drop_last() =~= x);
        if x.len() > 0 {
            law_edit_distance_identity(x);
        }
    } else {
        assert(y.drop_last() =~= x.drop_last().insert(i, c));
        assert(y.last() == x.last());
        lemma_insert_one(x.drop_last(), i, c);
    }
}

proof fn lemma_update_one(x: Seq<char>, i: int, c: char)
    requires
        0 <= i < x.len(),
    ensures
        levenshtein(x, x.update(i, c)) <= 1,
    decreases x.len() - i,
{
    let y = x.update(i, c);
    if i == x.len() - 1 {
        assert(y.drop_last() =~= x.drop_last());
        law_edit_distance_identity(x.drop_last());
    } else {
        assert(y.drop_last() =~= x.drop_last().update(i, c));
        assert(y.last() == x.last());
        lemma_update_one(x.drop_last(), i, c);
    }
}

proof fn lemma_one_edit(x: Seq<char>, y: Seq<char>)
    requires
        one_edit(x, y),
    ensures
        levenshtein(x, y) <= 1,
{
    if exists|i: int, c: char| 0 <= i <= x.len() && y == #[trigger] x.insert(i, c) {
        let (i, c) = choose|i: int, c: char| 0 <= i <= x.len() && y == #[trigger] x.insert(i, c);
        lemma_insert_one(x, i, c);
    } else if exists|i: int| 0 <= i < x.len() && y == #[trigger] x.remove(i) {
        let i = choose|i: int| 0 <= i < x.len() && y == #[trigger] x.remove(i);
        assert(x =~= y.insert(i, x[i]));
        lemma_insert_one(y, i, x[i]);
        law_edit_distance_symmetric(x, y);
    } else {
        let (i, c) = choose|i: int, c: char| 0 <= i < x.len() && y == #[trigger] x.update(i, c);
        lemma_update_one(x, i, c);
    }
}

/// No chain of single-character edits from one text to another is shorter
/// than their distance.
pub proof fn law_edit_distance_minimal(s: Seq<Seq<char>>)
    requires
        s.len() > 0,
        edit_chain(s),
    ensures
        levenshtein(s[0], s.last()) <= s.len() - 1,
    decreases s.len(),
{
    if s.len() == 1 {
        law_edit_distance_identity(s[0]);
    } else {
        let t = s.drop_last();
        assert(edit_chain(t)) by {
            assert forall|i: int| 0 <= i && i + 1 < t.len() implies one_edit(#[trigger] t[i], t[i + 1]) by {
                assert(one_edit(s[i], s[i + 1]));
            }
        }
        law_edit_distance_minimal(t);
        assert(one_edit(s[s.len() - 2], s[s.len() - 1]));
        lemma_one_edit(s[s.len() - 2], s.last());
        law_edit_distance_triangle(s[0], t.last(), s.last());
    }
}

proof fn lemma_one_edit_push(x: Seq<char>, y: Seq<char>, c: char)
    requires
        one_edit(x, y),
    ensures
        one_edit(x.push(c), y.push(c)),
{
    if exists|i: int, d: char| 0 <= i <= x.len() && y == #[trigger] x.insert(i, d) {
        let (i, d) = choose|i: int, d: char| 0 <= i <= x.len() && y == #[trigger] x.insert(i, d);
        assert(y.push(c) =~= x.push(c).insert(i, d));
    } else if exists|i: int| 0 <= i < x.len() && y == #[trigger] x.remove(i) {
        let i = choose|i: int| 0 <= i < x.len() && y == #[trigger] x.remove(i);
        assert(y.push(c) =~= x.push(c).remove(i));
    } else {
        let (i, d) = choose|i: int, d: char| 0 <= i < x.len() && y == #[trigger] x.update(i, d);
        assert(y.push(c) =~= x.push(c).update(i, d));
    }
}

proof fn lemma_chain_append(t: Seq<Seq<char>>, b: Seq<char>)
    requires
        t.len() > 0,
        edit_chain(t),
        one_edit(t.last(), b),
    ensures
        edit_chain(t.push(b)),
{
    let s = t.push(b);
    assert forall|i: int| 0 <= i && i + 1 < s.len() implies one_edit(#[trigger] s[i], s[i + 1]) by {
        if i + 1 < t.len() {
            assert(s[i] == t[i] && s[i + 1] == t[i + 1]);
        } else {
            assert(s[i] == t.last() && s[i + 1] == b);
        }
    }
}

proof fn lemma_chain_prepend(a: Seq<char>, t: Seq<Seq<char>>)
    requires
        t.len() > 0,
        edit_chain(t),
        one_edit(a, t[0]),
    ensures
        edit_chain(seq![a] + t),
{
    let s = seq![a] + t;
    assert forall|i: int| 0 <= i && i + 1 < s.len() implies one_edit(#[trigger] s[i], s[i + 1]) by {
        if i == 0 {
            assert(s[0] == a && s[1] == t[0]);
        } else {
            assert(s[i] == t[i - 1] && s[i + 1] == t[i]);
        }
    }
}

proof fn lemma_chain_push_all(t: Seq<Seq<char>>, x: char)
    requires
        edit_chain(t),
    ensures
        edit_chain(Seq::new(t.len(), |i: int| t[i].push(x))),
{
    let u = Seq::new(t.len(), |i: int| t[i].push(x));
    assert forall|i: int| 0 <= i && i + 1 < u.len() implies one_edit(#[trigger] u[i], u[i + 1]) by {
        lemma_one_edit_push(t[i], t[i + 1], x);
    }
}

/// Some chain of single-character edits from `a` to `b` is exactly as long
/// as their distance: together with `law_edit_distance_minimal`, the
/// distance is the least number of insertions, deletions and substitutions
/// that turn one text into the other.
#[verifier::rlimit(40)]
pub proof fn law_edit_distance_achieved(a: Seq<char>, b: Seq<char>) -> (s: Seq<Seq<char>>)
    ensures
        s.len() == levenshtein(a, b) + 1,
        s[0] == a,
        s.last() == b,
        edit_chain(s),
    decreases a.len() + b.len(),
{
    if a.len() == 0 && b.len() == 0 {
        assert(a =~= b);
        seq![a]
    } else if a.len() == 0 || (b.len() > 0 && levenshtein(a, b) == levenshtein(a, b.drop_last()) + 1) {
        let b1 = b.drop_last();
        let t = law_edit_distance_achieved(a, b1);
        assert(b =~= b1.insert(b1.len() as int, b.last()));
        lemma_chain_append(t, b);
        t.push(b)
    } else if b.len() == 0 || levenshtein(a, b) == levenshtein(a.drop_last(), b) + 1 {
        let a1 = a.drop_last();
        let t = law_edit_distance_achieved(a1, b);
        assert(a1 =~= a.remove(a.len() - 1));
        lemma_chain_prepend(a, t);
        assert((seq![a] + t).last() == t.last());
        seq![a] + t
    } else {
        let (a1, b1) = (a.drop_last(), b.drop_last());
        let x = a.last();
        let t = law_edit_distance_achieved(a1, b1);
        lemma_chain_push_all(t, x);
        let u = Seq::new(t.len(), |i: int| t[i].push(x));
        assert(u[0] =~= a);
        if x == b.last() {
            assert(u.last() =~= b);
            u
        } else {
            assert(b =~= u.last().update(b1.len() as int, b.last()));
            lemma_chain_append(u, b);
            u.push(b)
        }
    }
}

proof fn lemma_at_distance_subset(q: Seq<char>, cs: Seq<Seq<char>>, d: nat)
    ensures
        forall|x: Seq<char>| #[trigger] at_distance(q, cs, d).contains(x) ==> cs.contains(x),
    decreases cs.len(),
{
    if cs.len() > 0 {
        lemma_at_distance_subset(q, cs.drop_last(), d);
        assert forall|x: Seq<char>| #[trigger] at_distance(q, cs, d).contains(x) implies cs.contains(x) by {
            let r = at_distance(q, cs.drop_last(), d);
            if r.contains(x) {
                let j = choose|j: int| 0 <= j < r.len() && r[j] == x;
                let k = choose|k: int| 0 <= k < cs.drop_last().len() && cs.drop_last()[k] == x;
                assert(cs[k] == x);
            } else {
                let s = at_distance(q, cs, d);
                let j = choose|j: int| 0 <= j < s.len() && s[j] == x;
                assert(x == cs.last());
                assert(cs[cs.len() - 1] == x);
            }
        }
    }
}

proof fn lemma_ranked_subset(q: Seq<char>, cs: Seq<Seq<char>>, t: nat)
    ensures
        forall|x: Seq<char>| #[trigger] ranked(q, cs, t).contains(x) ==> cs.contains(x),
    decreases t,
{
    lemma_at_distance_subset(q, cs, t);
    if t > 0 {
        lemma_ranked_subset(q, cs, (t - 1) as nat);
        assert forall|x: Seq<char>| #[trigger] ranked(q, cs, t).contains(x) implies cs.contains(x) by {
            let a = ranked(q, cs, (t - 1) as nat);
            let b = at_distance(q, cs, t);
            let j = choose|j: int| 0 <= j < (a + b).len() && (a + b)[j] == x;
            if j < a.len() {
                assert(a[j] == x);
                assert(a.contains(x));
            } else {
                assert(b[j - a.len()] == x);
                assert(b.contains(x));
            }
        }
    }
}

/// Suggestions are never more than asked for, and every suggestion is one
/// of the candidates.
pub proof fn law_suggestions_bounded(query: Seq<char>, query_bytes: int, cands: Seq<Seq<char>>, max: int)
    requires
        0 <= max,
    ensures
        closest(query, query_bytes, cands, max).len() <= max,
        forall|x: Seq<char>| #[trigger] closest(query, query_bytes, cands, max).contains(x) ==> cands.contains(x),
{
    let t = crate::error::suggestion_threshold(query_bytes) as nat;
    let r = ranked(query, cands, t);
    lemma_ranked_subset(query, cands, t);
    assert forall|x: Seq<char>| #[trigger] closest(query, query_bytes, cands, max).contains(x) implies cands.contains(x) by {
        let c = closest(query, query_bytes, cands, max);
        let j = choose|j: int| 0 <= j < c.len() && c[j] == x;
        assert(r[j] == x);
        assert(r.contains(x));
    }
}

proof fn lemma_at_distance_exact(q: Seq<char>, cs: Seq<Seq<char>>, d: nat)
    ensures
        forall|i: int| 0 <= i < at_distance(q, cs, d).len() ==> match_distance(q, #[trigger] at_distance(q, cs, d)[i]) == d,
    decreases cs.len(),
{
    if cs.len() > 0 {
        lemma_at_distance_exact(q, cs.drop_last(), d);
        let r = at_distance(q, cs.drop_last(), d);
        if match_distance(q, cs.last()) == d {
            assert forall|i: int| 0 <= i < r.push(cs.last()).len() implies match_distance(q, #[trigger] r.push(cs.last())[i]) == d by {
                if i < r.len() {
                    assert(r.push(cs.last())[i] == r[i]);
                }
            }
        }
    }
}

proof fn lemma_at_distance_complete(q: Seq<char>, cs: Seq<Seq<char>>, d: nat)
    ensures
        forall|x: Seq<char>| cs.contains(x) && match_distance(q, x) == d ==> #[trigger] at_distance(q, cs, d).contains(x),
    decreases cs.len(),
{
    if cs.len() > 0 {
        let d0 = cs.drop_last();
        lemma_at_distance_complete(q, d0, d);
        assert forall|x: Seq<char>| cs.contains(x) && match_distance(q, x) == d implies #[trigger] at_distance(q, cs, d).contains(x) by {
            let r = at_distance(q, d0, d);
            let k = choose|k: int| 0 <= k < cs.len() && cs[k] == x;
            if k < cs.len() - 1 {
                assert(d0[k] == x);
                assert(r.contains(x));
                if match_distance(q, cs.last()) == d {
                    let j = choose|j: int| 0 <= j < r.len() && r[j] == x;
                    assert(r.push(cs.last())[j] == x);
                }
            } else {
                assert(x == cs.last());
                assert(r.push(cs.last())[r.len() as int] == x);
            }
        }
    }
}

proof fn lemma_ranked_sorted(q: Seq<char>, cs: Seq<Seq<char>>, t: nat)
    ensures
        forall|i: int| 0 <= i < ranked(q, cs, t).len() ==> match_distance(q, #[trigger] ranked(q, cs, t)[i]) <= t,
        forall|i: int, j: int|
            0 <= i <= j < ranked(q, cs, t).len() ==> match_distance(q, #[trigger] ranked(q, cs, t)[i]) <= match_distance(
                q,
                #[trigger] ranked(q, cs, t)[j],
            ),
    decreases t,
{
    lemma_at_distance_exact(q, cs, t);
    if t > 0 {
        lemma_ranked_sorted(q, cs, (t - 1) as nat);
        let a = ranked(q, cs, (t - 1) as nat);
        let b = at_distance(q, cs, t);
        assert(ranked(q, cs, t) == a + b);
        assert forall|i: int| 0 <= i < (a + b).len() implies match_distance(q, #[trigger] (a + b)[i]) <= t by {
            if i < a.len() {
                assert((a + b)[i] == a[i]);
            } else {
                assert((a + b)[i] == b[i - a.len()]);
            }
        }
        assert forall|i: int, j: int| 0 <= i <= j < (a + b).len() implies match_distance(q, #[trigger] (a + b)[i])
            <= match_distance(q, #[trigger] (a + b)[j]) by {
            if j < a.len() {
                assert((a + b)[i] == a[i]);
                assert((a + b)[j] == a[j]);
            } else if i < a.len() {
                assert((a + b)[i] == a[i]);
                assert((a + b)[j] == b[j - a.len()]);
            } else {
                assert((a + b)[i] == b[i - a.len()]);
                assert((a + b)[j] == b[j - a.len()]);
            }
        }
    }
}

proof fn lemma_ranked_complete(q: Seq<char>, cs: Seq<Seq<char>>, t: nat)
    ensures
        forall|x: Seq<char>| cs.contains(x) && match_distance(q, x) <= t ==> #[trigger] ranked(q, cs, t).contains(x),
    decreases t,
{
    lemma_at_distance_complete(q, cs, t);
    if t > 0 {
        lemma_ranked_complete(q, cs, (t - 1) as nat);
        let a = ranked(q, cs, (t - 1) as nat);
        let b = at_distance(q, cs, t);
        assert forall|x: Seq<char>| cs.contains(x) && match_distance(q, x) <= t implies #[trigger] ranked(q, cs, t).contains(x) by {
            if match_distance(q, x) < t {
                assert(a.contains(x));
                let j = choose|j: int| 0 <= j < a.len() && a[j] == x;
                assert((a + b)[j] == x);
            } else {
                assert(b.contains(x));
                let j = choose|j: int| 0 <= j < b.len() && b[j] == x;
                assert((a + b)[a.len() + j] == x);
            }
        }
    }
}

proof fn lemma_at_distance_from(q: Seq<char>, cs: Seq<Seq<char>>, d: nat)
    ensures
        forall|i: int| 0 <= i < at_distance(q, cs, d).len() ==> exists|k: int|
            0 <= k < cs.len() && #[trigger] cs[k] == #[trigger] at_distance(q, cs, d)[i],
    decreases cs.len(),
{
    if cs.len() > 0 {
        let c0 = cs.drop_last();
        lemma_at_distance_from(q, c0, d);
        let r = at_distance(q, c0, d);
        let a = at_distance(q, cs, d);
        assert forall|i: int| 0 <= i < a.len() implies exists|k: int| 0 <= k < cs.len() && #[trigger] cs[k] == #[trigger] a[i] by {
            if i < r.len() {
                assert(a[i] == r[i]);
                let k = choose|k: int| 0 <= k < c0.len() && #[trigger] c0[k] == #[trigger] r[i];
                assert(cs[k] == c0[k]);
            } else {
                assert(a[i] == cs[cs.len() - 1]);
            }
        }
    }
}

proof fn lemma_at_distance_in_order(q: Seq<char>, cs: Seq<Seq<char>>, d: nat)
    ensures
        forall|i: int, j: int| #![trigger at_distance(q, cs, d)[i], at_distance(q, cs, d)[j]] 0 <= i < j < at_distance(q, cs, d).len() ==> exists|ki: int, kj: int|
            #![trigger cs[ki], cs[kj]]
            0 <= ki < kj < cs.len() && cs[ki] == at_distance(q, cs, d)[i] && cs[kj] == at_distance(q, cs, d)[j],
    decreases cs.len(),
{
    if cs.len() > 0 {
        let c0 = cs.drop_last();
        lemma_at_distance_in_order(q, c0, d);
        lemma_at_distance_from(q, c0, d);
        let r = at_distance(q, c0, d);
        let a = at_distance(q, cs, d);
        assert forall|i: int, j: int| #![trigger a[i], a[j]] 0 <= i < j < a.len() implies exists|ki: int, kj: int|
            #![trigger cs[ki], cs[kj]]
            0 <= ki < kj < cs.len() && cs[ki] == a[i] && cs[kj] == a[j] by {
            if j < r.len() {
                assert(a[i] == r[i] && a[j] == r[j]);
                let (ki, kj) = choose|ki: int, kj: int| #![trigger c0[ki], c0[kj]] 0 <= ki < kj < c0.len() && c0[ki] == r[i] && c0[kj] == r[j];
                assert(cs[ki] == c0[ki] && cs[kj] == c0[kj]);
            } else {
                assert(a[i] == r[i]);
                assert(a[j] == cs[cs.len() - 1]);
                let ki = choose|k: int| 0 <= k < c0.len() && #[trigger] c0[k] == #[trigger] r[i];
                assert(cs[ki] == c0[ki]);
                let kj = cs.len() - 1;
                assert(0 <= ki < kj < cs.len() && cs[ki] == a[i] && cs[kj] == a[j]);
            }
        }
    }
}

proof fn lemma_ranked_ties_in_order(q: Seq<char>, cs: Seq<Seq<char>>, t: nat)
    ensures
        forall|i: int, j: int| #![trigger ranked(q, cs, t)[i], ranked(q, cs, t)[j]]
            0 <= i < j < ranked(q, cs, t).len() && match_distance(q, ranked(q, cs, t)[i]) == match_distance(q, ranked(q, cs, t)[j])
                ==> exists|ki: int, kj: int| #![trigger cs[ki], cs[kj]] 0 <= ki < kj < cs.len() && cs[ki] == ranked(q, cs, t)[i]
                && cs[kj] == ranked(q, cs, t)[j],
    decreases t,
{
    lemma_at_distance_in_order(q, cs, t);
    lemma_at_distance_exact(q, cs, t);
    if t > 0 {
        lemma_ranked_ties_in_order(q, cs, (t - 1) as nat);
        lemma_ranked_sorted(q, cs, (t - 1) as nat);
        let a = ranked(q, cs, (t - 1) as nat);
        let b = at_distance(q, cs, t);
        assert(ranked(q, cs, t) == a + b);
        assert forall|i: int, j: int| #![trigger (a + b)[i], (a + b)[j]]
            0 <= i < j < (a + b).len() && match_distance(q, (a + b)[i]) == match_distance(q, (a + b)[j])
            implies exists|ki: int, kj: int| #![trigger cs[ki], cs[kj]] 0 <= ki < kj < cs.len() && cs[ki] == (a + b)[i]
                && cs[kj] == (a + b)[j] by {
            if j < a.len() {
                assert((a + b)[i] == a[i] && (a + b)[j] == a[j]);
            } else if i < a.len() {
                assert((a + b)[i] == a[i]);
                assert((a + b)[j] == b[j - a.len()]);
                assert(match_distance(q, a[i]) <= t - 1);
                assert(match_distance(q, b[j - a.len()]) == t);
            } else {
                assert((a + b)[i] == b[i - a.len()] && (a + b)[j] == b[j - a.len()]);
            }
        }
    }
}

/// Suggestions at the same distance come in the candidates' order.
pub proof fn law_suggestion_ties_in_candidate_order(query: Seq<char>, query_bytes: int, cands: Seq<Seq<char>>, max: int)
    requires
        0 <= max,
    ensures
        forall|i: int, j: int| #![trigger closest(query, query_bytes, cands, max)[i], closest(query, query_bytes, cands, max)[j]]
            0 <= i < j < closest(query, query_bytes, cands, max).len() && match_distance(query, closest(query, query_bytes, cands, max)[i])
                == match_distance(query, closest(query, query_bytes, cands, max)[j]) ==> exists|ki: int, kj: int|
                #![trigger cands[ki], cands[kj]]
                0 <= ki < kj < cands.len() && cands[ki] == closest(query, query_bytes, cands, max)[i] && cands[kj] == closest(
                    query,
                    query_bytes,
                    cands,
                    max,
                )[j],
{
    let t = suggestion_threshold(query_bytes) as nat;
    let r = ranked(query, cands, t);
    let out = closest(query, query_bytes, cands, max);
    lemma_ranked_ties_in_order(query, cands, t);
    assert forall|i: int, j: int| #![trigger out[i], out[j]]
        0 <= i < j < out.len() && match_distance(query, out[i]) == match_distance(query, out[j]) implies exists|ki: int, kj: int|
            #![trigger cands[ki], cands[kj]]
            0 <= ki < kj < cands.len() && cands[ki] == out[i] && cands[kj] == out[j] by {
        assert(out[i] == r[i] && out[j] == r[j]);
    }
}

/// Suggestions come nearest first, each within the threshold; and a
/// candidate within the threshold is left out only when the list is full
/// and everything in it is at least as near.
pub proof fn law_suggestions_ranked(query: Seq<char>, query_bytes: int, cands: Seq<Seq<char>>, max: int)
    requires
        0 <= max,
    ensures
        forall|i: int| 0 <= i < closest(query, query_bytes, cands, max).len() ==> match_distance(query, #[trigger] closest(query, query_bytes, cands, max)[i]) <= suggestion_threshold(query_bytes),
        forall|i: int, j: int|
            0 <= i <= j < closest(query, query_bytes, cands, max).len() ==> match_distance(
                query,
                #[trigger] closest(query, query_bytes, cands, max)[i],
            ) <= match_distance(query, #[trigger] closest(query, query_bytes, cands, max)[j]),
        forall|c: Seq<char>|
            cands.contains(c) && match_distance(query, c) <= suggestion_threshold(query_bytes)
                && !(#[trigger] closest(query, query_bytes, cands, max).contains(c)) ==> closest(query, query_bytes, cands, max).len() == max
                && (max > 0 ==> match_distance(query, closest(query, query_bytes, cands, max)[max - 1]) <= match_distance(query, c)),
{
    let t = suggestion_threshold(query_bytes) as nat;
    let r = ranked(query, cands, t);
    let out = closest(query, query_bytes, cands, max);
    lemma_ranked_sorted(query, cands, t);
    lemma_ranked_complete(query, cands, t);
    assert forall|i: int| 0 <= i < out.len() implies #[trigger] out[i] == r[i] by {}
    assert forall|i: int| 0 <= i < out.len() implies match_distance(query, #[trigger] out[i]) <= suggestion_threshold(query_bytes) by {
        assert(out[i] == r[i]);
    }
    assert forall|i: int, j: int| 0 <= i <= j < out.len() implies match_distance(query, #[trigger] out[i]) <= match_distance(query, #[trigger] out[j]) by {
        assert(out[i] == r[i]);
        assert(out[j] == r[j]);
    }
    assert forall|c: Seq<char>|
        cands.contains(c) && match_distance(query, c) <= suggestion_threshold(query_bytes) && !(#[trigger] out.contains(c)) implies out.len() == max
            && (max > 0 ==> match_distance(query, out[max - 1]) <= match_distance(query, c)) by {
        assert(r.contains(c));
        let k = choose|k: int| 0 <= k < r.len() && r[k] == c;
        if k < max {
            assert(out[k] == c);
            assert(out.contains(c));
        }
        assert(max <= r.len());
        assert(out.len() == max);
        if max > 0 {
            assert(out[max - 1] == r[max - 1]);
        }
    }
}

/// A candidate within the threshold that the suggestions leave out is no
/// nearer than the last suggestion kept, and the list is full; with
/// `max == 0` there are no suggestions.
pub proof fn law_suggestion_left_out_no_closer(query: Seq<char>, query_bytes: int, cands: Seq<Seq<char>>, max: int, c: Seq<char>)
    requires
        0 <= max,
        cands.contains(c),
        match_distance(query, c) <= suggestion_threshold(query_bytes),
        !closest(query, query_bytes, cands, max).contains(c),
    ensures
        closest(query, query_bytes, cands, max).len() == max,
        max > 0 ==> match_distance(query, closest(query, query_bytes, cands, max).last()) <= match_distance(query, c),
        max == 0 ==> closest(query, query_bytes, cands, max).len() == 0,
{
    law_suggestions_ranked(query, query_bytes, cands, max);
}

// ---------------------------------------------------------------------------
// Names made safe
// ---------------------------------------------------------------------------

/// A sanitized file name holds none of the characters that cannot stand in
/// a file name, keeps its length, and sanitizing it again changes nothing.
pub proof fn law_sanitize_safe_and_idempotent(s: Seq<char>)
    ensures
        sanitized(s).len() == s.len(),
        forall|i: int| 0 <= i < s.len() ==> !is_unsafe_file_char(#[trigger] sanitized(s)[i]),
        sanitized(sanitized(s)) == sanitized(s),
{
    assert(sanitized(sanitized(s)) =~= sanitized(s));
}

/// A tmux-safe name holds no `.` or `:`, and making it safe again changes
/// nothing.
pub proof fn law_tmux_name_safe_and_idempotent(s: Seq<char>)
    ensures
        tmux_safe(s).len() == s.len(),
        forall|i: int| 0 <= i < s.len() ==> #[trigger] tmux_safe(s)[i] != '.' && tmux_safe(s)[i] != ':',
        tmux_safe(tmux_safe(s)) == tmux_safe(s),
{
    assert(tmux_safe(tmux_safe(s)) =~= tmux_safe(s));
}

// ---------------------------------------------------------------------------
// Merging kubeconfigs
// ---------------------------------------------------------------------------

proof fn lemma_drop_named_names(items: Seq<NamedItemView>, n: Seq<char>)
    ensures
        forall|x: Seq<char>| #[trigger] names(drop_named(items, n)).contains(x) <==> (names(items).contains(x) && x != n),
        names(items).no_duplicates() ==> names(drop_named(items, n)).no_duplicates(),
    decreases items.len(),
{
    if items.len() > 0 {
        let d = items.drop_last();
        lemma_drop_named_names(d, n);
        let r = drop_named(d, n);
        assert(names(items) =~= names(d).push(items.last().name));
        assert forall|x: Seq<char>| #[trigger] names(drop_named(items, n)).contains(x) <==> (names(items).contains(x) && x != n) by {
            crate::kubeconfig_ops::lemma_contains_push(names(d), items.last().name, x);
            if items.last().name != n {
                assert(names(drop_named(items, n)) =~= names(r).push(items.last().name));
                crate::kubeconfig_ops::lemma_contains_push(names(r), items.last().name, x);
            }
        }
        if names(items).no_duplicates() && items.last().name != n {
            assert(names(drop_named(items, n)) =~= names(r).push(items.last().name));
            assert(!names(d).contains(items.last().name)) by {
                if names(d).contains(items.last().name) {
                    let k = choose|k: int| 0 <= k < names(d).len() && names(d)[k] == items.last().name;
                    assert(names(items)[k] == names(items)[items.len() - 1]);
                }
            }
            assert(names(d).no_duplicates()) by {
                assert forall|i: int, j: int| 0 <= i < names(d).len() && 0 <= j < names(d).len() && i != j implies names(d)[i] != names(d)[j] by {
                    assert(names(d)[i] == names(items)[i]);
                    assert(names(d)[j] == names(items)[j]);
                }
            }
            assert(!names(r).contains(items.last().name));
            crate::kubeconfig_ops::lemma_push_no_duplicates(names(r), items.last().name);
        } else if names(items).no_duplicates() {
            assert(names(drop_named(items, n)) == names(r));
            assert(names(d).no_duplicates()) by {
                assert forall|i: int, j: int| 0 <= i < names(d).len() && 0 <= j < names(d).len() && i != j implies names(d)[i] != names(d)[j] by {
                    assert(names(d)[i] == names(items)[i]);
                    assert(names(d)[j] == names(items)[j]);
                }
            }
        }
    }
}

/// Merging keeps one item per name, whichever side wins a conflict, and
/// every name of the merged items' inputs is there.
pub proof fn law_merge_unique_names(items: Seq<NamedItemView>, overwrite: bool)
    ensures
        names(merge_items(items, overwrite)).no_duplicates(),
        forall|x: Seq<char>| #[trigger] names(merge_items(items, overwrite)).contains(x) <==> names(items).contains(x),
    decreases items.len(),
{
    if items.len() > 0 {
        let d = items.drop_last();
        let x0 = items.last();
        law_merge_unique_names(d, overwrite);
        let acc = merge_items(d, overwrite);
        assert(names(items) =~= names(d).push(x0.name));
        if overwrite {
            lemma_drop_named_names(acc, x0.name);
            let dn = drop_named(acc, x0.name);
            assert(names(merge_items(items, overwrite)) =~= names(dn).push(x0.name));
            assert(!names(dn).contains(x0.name));
            crate::kubeconfig_ops::lemma_push_no_duplicates(names(dn), x0.name);
            assert forall|x: Seq<char>| #[trigger] names(merge_items(items, overwrite)).contains(x) <==> names(items).contains(x) by {
                crate::kubeconfig_ops::lemma_contains_push(names(dn), x0.name, x);
                crate::kubeconfig_ops::lemma_contains_push(names(d), x0.name, x);
            }
        } else if names(acc).contains(x0.name) {
            assert forall|x: Seq<char>| #[trigger] names(merge_items(items, overwrite)).contains(x) <==> names(items).contains(x) by {
                crate::kubeconfig_ops::lemma_contains_push(names(d), x0.name, x);
            }
        } else {
            assert(names(merge_items(items, overwrite)) =~= names(acc).push(x0.name));
            crate::kubeconfig_ops::lemma_push_no_duplicates(names(acc), x0.name);
            assert forall|x: Seq<char>| #[trigger] names(merge_items(items, overwrite)).contains(x) <==> names(items).contains(x) by {
                crate::kubeconfig_ops::lemma_contains_push(names(acc), x0.name, x);
                crate::kubeconfig_ops::lemma_contains_push(names(d), x0.name, x);
            }
        }
    }
}

proof fn lemma_drop_named_from(items: Seq<NamedItemView>, n: Seq<char>)
    ensures
        forall|k: int| 0 <= k < drop_named(items, n).len() ==> (#[trigger] drop_named(items, n)[k]).name != n
            && exists|i: int| 0 <= i < items.len() && items[i] == drop_named(items, n)[k],
    decreases items.len(),
{
    if items.len() > 0 {
        let d = items.drop_last();
        lemma_drop_named_from(d, n);
        let r = drop_named(d, n);
        assert forall|k: int| 0 <= k < drop_named(items, n).len() implies (#[trigger] drop_named(items, n)[k]).name != n
            && exists|i: int| 0 <= i < items.len() && items[i] == drop_named(items, n)[k] by {
            if k < r.len() {
                assert(drop_named(items, n)[k] == r[k]);
                let i = choose|i: int| 0 <= i < d.len() && d[i] == r[k];
                assert(items[i] == d[i]);
            } else {
                assert(drop_named(items, n)[k] == items.last());
                assert(items[items.len() - 1] == items.last());
            }
        }
    }
}

/// The item a merge keeps under each name is the first of that name in the
/// input, or with `overwrite` the last.
pub proof fn law_merge_keeps_first_or_last(items: Seq<NamedItemView>, overwrite: bool)
    ensures
        forall|k: int| 0 <= k < merge_items(items, overwrite).len() ==> exists|i: int|
            0 <= i < items.len() && items[i] == #[trigger] merge_items(items, overwrite)[k] && (if overwrite {
                forall|j: int| i < j < items.len() ==> items[j].name != merge_items(items, overwrite)[k].name
            } else {
                forall|j: int| 0 <= j < i ==> items[j].name != merge_items(items, overwrite)[k].name
            }),
    decreases items.len(),
{
    if items.len() > 0 {
        let d = items.drop_last();
        let x = items.last();
        let last = items.len() - 1;
        law_merge_keeps_first_or_last(d, overwrite);
        law_merge_unique_names(d, overwrite);
        let acc = merge_items(d, overwrite);
        let m = merge_items(items, overwrite);
        if overwrite {
            let dn = drop_named(acc, x.name);
            lemma_drop_named_from(acc, x.name);
            assert(m == dn.push(x));
            assert forall|k: int| 0 <= k < m.len() implies exists|i: int|
                0 <= i < items.len() && items[i] == #[trigger] m[k] && forall|j: int| i < j < items.len() ==> items[j].name != m[k].name by {
                if k < dn.len() {
                    assert(m[k] == dn[k]);
                    let k2 = choose|k2: int| 0 <= k2 < acc.len() && acc[k2] == dn[k];
                    let i = choose|i: int| 0 <= i < d.len() && d[i] == acc[k2] && forall|j: int| i < j < d.len() ==> d[j].name != acc[k2].name;
                    assert(items[i] == d[i]);
                    assert forall|j: int| i < j < items.len() implies items[j].name != m[k].name by {
                        if j < d.len() {
                            assert(items[j] == d[j]);
                        }
                    }
                } else {
                    assert(m[k] == x);
                    assert(items[last] == x);
                }
            }
        } else if names(acc).contains(x.name) {
            assert(m == acc);
            assert forall|k: int| 0 <= k < m.len() implies exists|i: int|
                0 <= i < items.len() && items[i] == #[trigger] m[k] && forall|j: int| 0 <= j < i ==> items[j].name != m[k].name by {
                let i = choose|i: int| 0 <= i < d.len() && d[i] == acc[k] && forall|j: int| 0 <= j < i ==> d[j].name != acc[k].name;
                assert(items[i] == d[i]);
                assert forall|j: int| 0 <= j < i implies items[j].name != m[k].name by {
                    assert(items[j] == d[j]);
                }
            }
        } else {
            assert(m == acc.push(x));
            assert(!names(d).contains(x.name));
            assert forall|k: int| 0 <= k < m.len() implies exists|i: int|
                0 <= i < items.len() && items[i] == #[trigger] m[k] && forall|j: int| 0 <= j < i ==> items[j].name != m[k].name by {
                if k < acc.len() {
                    assert(m[k] == acc[k]);
                    let i = choose|i: int| 0 <= i < d.len() && d[i] == acc[k] && forall|j: int| 0 <= j < i ==> d[j].name != acc[k].name;
                    assert(items[i] == d[i]);
                    assert forall|j: int| 0 <= j < i implies items[j].name != m[k].name by {
                        assert(items[j] == d[j]);
                    }
                } else {
                    assert(m[k] == x);
                    assert(items[last] == x);
                    assert forall|j: int| 0 <= j < last implies items[j].name != m[k].name by {
                        assert(items[j] == d[j]);
                        assert(names(d)[j] == d[j].name);
                        if d[j].name == x.name {
                            assert(names(d).contains(x.name));
                        }
                    }
                }
            }
        }
    }
}

// ---------------------------------------------------------------------------
// Diffing kubeconfigs
// ---------------------------------------------------------------------------

/// The three lists of a diff split the contexts of both files: the first
/// file's names are those only in it plus those in both, the second's are
/// those only in it plus those in both, and no name is in two lists.
pub proof fn law_diff_partitions(a: Seq<NamedItemView>, b: Seq<NamedItemView>)
    ensures
        names_where(a, b, false).union(names_where(a, b, true)) == names(a).to_set(),
        names_where(b, a, false).union(names_where(a, b, true)) == names(b).to_set(),
        names_where(a, b, false).disjoint(names_where(a, b, true)),
        names_where(b, a, false).disjoint(names_where(a, b, true)),
        names_where(a, b, false).disjoint(names_where(b, a, false)),
{
    assert(names_where(a, b, false).union(names_where(a, b, true)) =~= names(a).to_set());
    assert(names_where(b, a, false).union(names_where(a, b, true)) =~= names(b).to_set());
}


// ---------------------------------------------------------------------------
// Reading back what was written
// ---------------------------------------------------------------------------

/// Reading a key just written into a YAML mapping gives the value written.
pub proof fn law_mapping_read_after_write(m: Seq<(YamlView, YamlView)>, k: Seq<char>, v: YamlView)
    ensures
        lookup(insert_entry(m, k, v), k) == Some(v),
{
    crate::yaml::lemma_entry_index(m, k);
    let m2 = insert_entry(m, k, v);
    match entry_index(m, k) {
        Some(i) => {
            assert forall|j: int| 0 <= j < i implies !key_is(#[trigger] m2[j].0, k) by {
                assert(m2[j] == m[j]);
            }
            crate::yaml::lemma_entry_index_exact(m2, k, i);
        },
        None => {
            assert forall|j: int| 0 <= j < m.len() implies !key_is(#[trigger] m2[j].0, k) by {
                assert(m2[j] == m[j]);
            }
            crate::yaml::lemma_entry_index_exact(m2, k, m.len() as int);
        },
    }
}

/// After setting a context's namespace, the context's YAML names that namespace.
pub proof fn law_namespace_read_after_set(rest: YamlView, ns: Seq<char>)
    ensures
        context_namespace(with_namespace(rest, ns)) == Some(ns),
{
    let map = match rest {
        YamlView::Mapping(m) => m,
        _ => Seq::empty(),
    };
    let inner = match lookup(map, "context"@) {
        Some(YamlView::Mapping(m)) => m,
        _ => Seq::empty(),
    };
    let inner2 = insert_entry(inner, "namespace"@, YamlView::Str(ns));
    law_mapping_read_after_write(crate::yaml::swap_remove_entry(map, "context"@), "context"@, YamlView::Mapping(inner2));
    law_mapping_read_after_write(inner, "namespace"@, YamlView::Str(ns));
}

/// After turning TLS verification off for a cluster, the cluster reads as
/// having it off.
pub proof fn law_insecure_read_after_set(rest: YamlView)
    ensures
        cluster_insecure(insecure_cluster(rest)),
{
    let map = match rest {
        YamlView::Mapping(m) => m,
        _ => Seq::empty(),
    };
    let inner = match lookup(map, "cluster"@) {
        Some(YamlView::Mapping(m)) => m,
        _ => Seq::empty(),
    };
    let stripped = crate::yaml::swap_remove_entry(
        crate::yaml::swap_remove_entry(inner, "certificate-authority"@),
        "certificate-authority-data"@,
    );
    let inner2 = insert_entry(stripped, "insecure-skip-tls-verify"@, YamlView::Bool(true));
    law_mapping_read_after_write(crate::yaml::swap_remove_entry(map, "cluster"@), "cluster"@, YamlView::Mapping(inner2));
    law_mapping_read_after_write(stripped, "insecure-skip-tls-verify"@, YamlView::Bool(true));
}

// ---------------------------------------------------------------------------
// Pruning to one context
// ---------------------------------------------------------------------------

/// Pruning a kubeconfig to a context gives one context, its cluster and its
/// user, with that context current; pruning the result again to the same
/// context changes nothing.
pub proof fn law_prune_idempotent(c: KubeConfigView, name: Seq<char>)
    requires
        pruned(c, name) is Ok,
    ensures
        pruned(c, name)->Ok_0.contexts.len() == 1,
        pruned(c, name)->Ok_0.clusters.len() == 1,
        pruned(c, name)->Ok_0.users.len() == 1,
        pruned(c, name)->Ok_0.current_context == Some(name),
        pruned(pruned(c, name)->Ok_0, name) == pruned(c, name),
{
    let p = pruned(c, name)->Ok_0;
    crate::kubeconfig::lemma_find_named(c.contexts, name);
    let i = find_named(c.contexts, name)->0;
    let (cl, u) = context_refs(c.contexts[i].rest)->Ok_0;
    crate::kubeconfig::lemma_find_named(c.clusters, cl);
    crate::kubeconfig::lemma_find_named(c.users, u);
    crate::kubeconfig::lemma_find_named_exact(p.contexts, name, 0);
    crate::kubeconfig::lemma_find_named_exact(p.clusters, cl, 0);
    crate::kubeconfig::lemma_find_named_exact(p.users, u, 0);
    let q = pruned(p, name)->Ok_0;
    assert(q.clusters =~= p.clusters);
    assert(q.contexts =~= p.contexts);
    assert(q.users =~= p.users);
}

/// The kubeconfig built for a Rancher-proxied cluster is complete: pruning
/// it to its context succeeds and gives it back.
pub proof fn law_rancher_kubeconfig_complete(name: Seq<char>, url: Seq<char>, token: Seq<char>, insecure: bool)
    ensures
        pruned(crate::rancher::rancher_kubeconfig(name, url, token, insecure), name)
            == Ok::<KubeConfigView, (crate::error::ErrorKind, Seq<char>)>(
            crate::rancher::rancher_kubeconfig(name, url, token, insecure),
        ),
{
    let c = crate::rancher::rancher_kubeconfig(name, url, token, insecure);
    crate::kubeconfig::lemma_find_named_exact(c.contexts, name, 0);
    let ctx_map = seq![
        ("context"@, crate::rancher::ymap(seq![("cluster"@, YamlView::Str(name + "-cluster"@)), ("user"@, YamlView::Str(name + "-user"@))])),
    ].map_values(|e: (Seq<char>, YamlView)| (YamlView::Str(e.0), e.1));
    crate::yaml::lemma_entry_index_exact(ctx_map, "context"@, 0);
    let inner = seq![("cluster"@, YamlView::Str(name + "-cluster"@)), ("user"@, YamlView::Str(name + "-user"@))].map_values(
        |e: (Seq<char>, YamlView)| (YamlView::Str(e.0), e.1),
    );
    crate::yaml::lemma_entry_index_exact(inner, "cluster"@, 0);
    reveal_strlit("cluster");
    reveal_strlit("user");
    assert(inner[0].0 == YamlView::Str("cluster"@));
    assert("cluster"@.len() != "user"@.len());
    assert(!key_is(inner[0].0, "user"@));
    crate::yaml::lemma_entry_index_exact(inner, "user"@, 1);
    crate::kubeconfig::lemma_find_named_exact(c.clusters, name + "-cluster"@, 0);
    crate::kubeconfig::lemma_find_named_exact(c.users, name + "-user"@, 0);
    let q = pruned(c, name)->Ok_0;
    assert(q.clusters =~= c.clusters);
    assert(q.contexts =~= c.contexts);
    assert(q.users =~= c.users);
}

// ---------------------------------------------------------------------------
// Lint
// ---------------------------------------------------------------------------

/// Every finding is an error or a warning.
pub open spec fn two_levels(v: Seq<LintIssueView>) -> bool {
    forall|i: int| 0 <= i < v.len() ==> (#[trigger] v[i]).level == "error"@ || v[i].level == "warning"@
}

proof fn lemma_count_level_add(a: Seq<LintIssueView>, b: Seq<LintIssueView>, l: Seq<char>)
    ensures
        count_level(a + b, l) == count_level(a, l) + count_level(b, l),
    decreases b.len(),
{
    if b.len() > 0 {
        lemma_count_level_add(a, b.drop_last(), l);
        assert((a + b).drop_last() =~= a + b.drop_last());
    } else {
        assert(a + b =~= a);
    }
}

proof fn lemma_count_two_levels(v: Seq<LintIssueView>)
    requires
        two_levels(v),
    ensures
        count_level(v, "error"@) + count_level(v, "warning"@) == v.len(),
    decreases v.len(),
{
    reveal_strlit("error");
    reveal_strlit("warning");
    if v.len() > 0 {
        assert(two_levels(v.drop_last())) by {
            assert forall|i: int| 0 <= i < v.drop_last().len() implies (#[trigger] v.drop_last()[i]).level == "error"@ || v.drop_last()[i].level == "warning"@ by {
                assert(v.drop_last()[i] == v[i]);
            }
        }
        lemma_count_two_levels(v.drop_last());
        assert(v.last() == v[v.len() - 1]);
        assert("error"@ != "warning"@) by {
            assert("error"@[0] != "warning"@[0]);
        }
    }
}

proof fn lemma_two_levels_add(a: Seq<LintIssueView>, b: Seq<LintIssueView>)
    requires
        two_levels(a),
        two_levels(b),
    ensures
        two_levels(a + b),
{
    assert forall|i: int| 0 <= i < (a + b).len() implies (#[trigger] (a + b)[i]).level == "error"@ || (a + b)[i].level == "warning"@ by {
        if i < a.len() {
            assert((a + b)[i] == a[i]);
        } else {
            assert((a + b)[i] == b[i - a.len()]);
        }
    }
}

proof fn lemma_orphan_two_levels(path: Seq<char>, items: Seq<NamedItemView>, refs: Set<Seq<char>>, prefix: Seq<char>)
    ensures
        two_levels(orphan_issues(path, items, refs, prefix)),
    decreases items.len(),
{
    if items.len() > 0 {
        lemma_orphan_two_levels(path, items.drop_last(), refs, prefix);
        let r = orphan_issues(path, items.drop_last(), refs, prefix);
        if !refs.contains(items.last().name) {
            lemma_two_levels_add(r, seq![issue(path, "warning"@, prefix + items.last().name)]);
            assert(r.push(issue(path, "warning"@, prefix + items.last().name)) =~= r + seq![issue(path, "warning"@, prefix + items.last().name)]);
        }
    }
}

proof fn lemma_all_issues_two_levels(files: Seq<(String, crate::kubeconfig_ops::LintSource)>)
    ensures
        two_levels(all_issues(files)),
    decreases files.len(),
{
    if files.len() > 0 {
        lemma_all_issues_two_levels(files.drop_last());
        let path = files.last().0@;
        let s = source_issues(path, files.last().1);
        assert(two_levels(s)) by {
            match files.last().1 {
                crate::kubeconfig_ops::LintSource::Parsed(c) => {
                    let cv = c@;
                    lemma_orphan_two_levels(path, cv.clusters, crate::kubeconfig_ops::referenced(cv.contexts, false), "orphaned cluster: "@);
                    lemma_orphan_two_levels(path, cv.users, crate::kubeconfig_ops::referenced(cv.contexts, true), "orphaned user: "@);
                    let first = if cv.contexts.len() == 0 {
                        seq![issue(path, "warning"@, "file has no contexts"@)]
                    } else {
                        Seq::empty()
                    };
                    let last = match cv.current_context {
                        Some(cur) => if names(cv.contexts).contains(cur) {
                            Seq::empty()
                        } else {
                            seq![issue(path, "error"@, "current-context not found: "@ + cur)]
                        },
                        None => Seq::empty(),
                    };
                    let o1 = orphan_issues(path, cv.clusters, crate::kubeconfig_ops::referenced(cv.contexts, false), "orphaned cluster: "@);
                    let o2 = orphan_issues(path, cv.users, crate::kubeconfig_ops::referenced(cv.contexts, true), "orphaned user: "@);
                    lemma_two_levels_add(first, o1);
                    lemma_two_levels_add(first + o1, o2);
                    lemma_two_levels_add(first + o1 + o2, last);
                },
                _ => {},
            }
        }
        lemma_two_levels_add(all_issues(files.drop_last()), s);
    }
}

/// Every lint finding is counted once, as an error or as a warning.
pub proof fn law_lint_counts_every_issue(files: Seq<(String, crate::kubeconfig_ops::LintSource)>)
    ensures
        count_level(all_issues(files), "error"@) + count_level(all_issues(files), "warning"@) == all_issues(files).len(),
{
    lemma_all_issues_two_levels(files);
    lemma_count_two_levels(all_issues(files));
}


// ---------------------------------------------------------------------------
// History
// ---------------------------------------------------------------------------

/// Recording a switch puts it first and never grows a history past ten
/// entries; recording the same switch again changes nothing; and after
/// switching from one context to another, the previous one is the first.
pub proof fn law_history_record(h: Seq<Seq<char>>, a: Seq<char>, b: Seq<char>)
    ensures
        recorded(h, a)[0] == a,
        h.len() <= 10 ==> recorded(h, a).len() <= 10,
        recorded(recorded(h, a), a) == recorded(h, a),
        a != b ==> recorded(recorded(h, a), b)[1] == a,
{
}

/// No entry of a history repeats the one before it.
pub open spec fn no_adjacent_repeats(h: Seq<Seq<char>>) -> bool {
    forall|i: int| 0 <= i && i + 1 < h.len() ==> #[trigger] h[i] != h[i + 1]
}

/// Recording a switch never puts two equal entries side by side, so a
/// history built only by recording switches has no such pair.
pub proof fn law_history_no_adjacent_repeats(h: Seq<Seq<char>>, x: Seq<char>)
    requires
        no_adjacent_repeats(h),
    ensures
        no_adjacent_repeats(recorded(h, x)),
{
    if !(h.len() > 0 && h[0] == x) {
        let full = seq![x] + h;
        assert forall|i: int| 0 <= i && i + 1 < full.len() implies #[trigger] full[i] != full[i + 1] by {
            if i == 0 {
                assert(full[1] == h[0]);
            } else {
                assert(full[i] == h[i - 1]);
                assert(full[i + 1] == h[i]);
            }
        }
        let r = recorded(h, x);
        assert forall|i: int| 0 <= i && i + 1 < r.len() implies #[trigger] r[i] != r[i + 1] by {
            assert(r[i] == full[i]);
            assert(r[i + 1] == full[i + 1]);
        }
    }
}

/// The context and namespace histories after a run of saves, each a context
/// and perhaps a namespace, in order.
pub open spec fn histories_after(
    c: Seq<Seq<char>>,
    n: Seq<Seq<char>>,
    saves: Seq<(Seq<char>, Option<Seq<char>>)>,
) -> (Seq<Seq<char>>, Seq<Seq<char>>)
    decreases saves.len(),
{
    if saves.len() == 0 {
        (c, n)
    } else {
        let (c1, n1) = histories_after(c, n, saves.drop_last());
        let (x, ns) = saves.last();
        (recorded(c1, x), match ns {
            Some(v) => recorded(n1, v),
            None => n1,
        })
    }
}

/// Whatever saves are made, starting from histories that are empty (or
/// otherwise at most ten long with no entry repeating the one before): both
/// histories stay at most ten long with no entry repeating the one before,
/// and the last save's context (and namespace, when given) comes first.
pub proof fn law_history_invariant(c: Seq<Seq<char>>, n: Seq<Seq<char>>, saves: Seq<(Seq<char>, Option<Seq<char>>)>)
    requires
        c.len() <= 10,
        n.len() <= 10,
        no_adjacent_repeats(c),
        no_adjacent_repeats(n),
    ensures
        histories_after(c, n, saves).0.len() <= 10,
        histories_after(c, n, saves).1.len() <= 10,
        no_adjacent_repeats(histories_after(c, n, saves).0),
        no_adjacent_repeats(histories_after(c, n, saves).1),
        saves.len() > 0 ==> histories_after(c, n, saves).0[0] == saves.last().0,
        saves.len() > 0 ==> (saves.last().1 matches Some(v) ==> histories_after(c, n, saves).1[0] == v),
    decreases saves.len(),
{
    if saves.len() > 0 {
        law_history_invariant(c, n, saves.drop_last());
        let (c1, n1) = histories_after(c, n, saves.drop_last());
        let (x, ns) = saves.last();
        law_history_record(c1, x, x);
        law_history_no_adjacent_repeats(c1, x);
        if let Some(v) = ns {
            law_history_record(n1, v, v);
            law_history_no_adjacent_repeats(n1, v);
        }
    }
}

// ---------------------------------------------------------------------------
// Sessions
// ---------------------------------------------------------------------------

/// How many sessions belong to `pid`.
pub open spec fn pid_count(v: Seq<SessionView>, pid: u32) -> nat
    decreases v.len(),
{
    if v.len() == 0 {
        0
    } else {
        pid_count(v.drop_last(), pid) + if v.last().pid == pid { 1nat } else { 0nat }
    }
}

proof fn lemma_without_pid_none(v: Seq<SessionView>, pid: u32)
    ensures
        pid_count(without_pid(v, pid), pid) == 0,
        forall|q: u32| q != pid ==> pid_count(without_pid(v, pid), q) == pid_count(v, q),
    decreases v.len(),
{
    if v.len() > 0 {
        lemma_without_pid_none(v.drop_last(), pid);
        let r = without_pid(v.drop_last(), pid);
        if v.last().pid != pid {
            assert(r.push(v.last()).drop_last() =~= r);
        }
        assert forall|q: u32| q != pid implies pid_count(without_pid(v, pid), q) == pid_count(v, q) by {
            assert(pid_count(r, q) == pid_count(v.drop_last(), q));
            assert(pid_count(v, q) == pid_count(v.drop_last(), q) + if v.last().pid == q { 1nat } else { 0nat });
            if v.last().pid != pid {
                assert(without_pid(v, pid) == r.push(v.last()));
                assert(r.push(v.last()).drop_last() =~= r);
                assert(pid_count(r.push(v.last()), q) == pid_count(r, q) + if v.last().pid == q { 1nat } else { 0nat });
            } else {
                assert(without_pid(v, pid) == r);
            }
        }
    }
}

/// Registering a session leaves exactly one session for its PID, and no
/// other PID gains or loses sessions; deregistering leaves none for the PID.
pub proof fn law_session_registry(
    v: Seq<SessionView>,
    pid: u32,
    context: Seq<char>,
    namespace: Option<Seq<char>>,
    kubeconfig: Seq<char>,
    now: u64,
    terminal: Seq<char>,
)
    ensures
        pid_count(registered(v, pid, context, namespace, kubeconfig, now, terminal), pid) == 1,
        forall|q: u32| q != pid ==> pid_count(registered(v, pid, context, namespace, kubeconfig, now, terminal), q) == pid_count(v, q),
        pid_count(without_pid(v, pid), pid) == 0,
{
    lemma_without_pid_none(v, pid);
    let r = without_pid(v, pid);
    let s = registered(v, pid, context, namespace, kubeconfig, now, terminal);
    assert(s.drop_last() =~= r);
}

// ---------------------------------------------------------------------------
// Removing and copying contexts
// ---------------------------------------------------------------------------

proof fn lemma_filter_by_names(items: Seq<NamedItemView>, s: Set<Seq<char>>, inside: bool)
    ensures
        forall|i: int| 0 <= i < filter_by(items, s, inside).len() ==> s.contains(#[trigger] filter_by(items, s, inside)[i].name) == inside,
        forall|x: NamedItemView| #[trigger] filter_by(items, s, inside).contains(x) ==> items.contains(x),
    decreases items.len(),
{
    if items.len() > 0 {
        lemma_filter_by_names(items.drop_last(), s, inside);
        let r = filter_by(items.drop_last(), s, inside);
        assert forall|x: NamedItemView| #[trigger] filter_by(items, s, inside).contains(x) implies items.contains(x) by {
            crate::kubeconfig_ops::lemma_contains_push(r, items.last(), x);
            if r.contains(x) {
                let k = choose|k: int| 0 <= k < items.drop_last().len() && items.drop_last()[k] == x;
                assert(items[k] == x);
            } else {
                assert(items[items.len() - 1] == x);
            }
        }
    }
}

/// After removing contexts, none of the removed names is left, every
/// remaining context was there before, and, with `remove_orphaned`, every
/// remaining cluster and user is one that a remaining context names. A dry
/// run changes nothing.
pub proof fn law_removal(c: KubeConfigView, to_remove: Seq<Seq<char>>, remove_orphaned: bool)
    ensures
        after_removal(c, to_remove, remove_orphaned, true) == c,
        forall|i: int| 0 <= i < after_removal(c, to_remove, remove_orphaned, false).contexts.len()
            ==> !to_remove.contains(#[trigger] after_removal(c, to_remove, remove_orphaned, false).contexts[i].name),
        forall|x: NamedItemView| #[trigger] after_removal(c, to_remove, remove_orphaned, false).contexts.contains(x) ==> c.contexts.contains(x),
        remove_orphaned ==> forall|i: int| 0 <= i < after_removal(c, to_remove, remove_orphaned, false).clusters.len()
            ==> referenced(after_removal(c, to_remove, remove_orphaned, false).contexts, false).contains(
                #[trigger] after_removal(c, to_remove, remove_orphaned, false).clusters[i].name,
            ),
        remove_orphaned ==> forall|i: int| 0 <= i < after_removal(c, to_remove, remove_orphaned, false).users.len()
            ==> referenced(after_removal(c, to_remove, remove_orphaned, false).contexts, true).contains(
                #[trigger] after_removal(c, to_remove, remove_orphaned, false).users[i].name,
            ),
{
    let ctxs = remaining_contexts(c, to_remove);
    lemma_filter_by_names(c.contexts, to_remove.to_set(), false);
    lemma_filter_by_names(c.clusters, referenced(ctxs, false), true);
    lemma_filter_by_names(c.users, referenced(ctxs, true), true);
}

proof fn lemma_drop_named_absent(items: Seq<NamedItemView>, n: Seq<char>)
    ensures
        forall|j: int| 0 <= j < drop_named(items, n).len() ==> (#[trigger] drop_named(items, n)[j]).name != n,
    decreases items.len(),
{
    if items.len() > 0 {
        lemma_drop_named_absent(items.drop_last(), n);
    }
}

proof fn lemma_find_last_named(items: Seq<NamedItemView>, x: NamedItemView)
    ensures
        find_named(drop_named(items, x.name).push(x), x.name) == Some((drop_named(items, x.name).len()) as int),
{
    lemma_drop_named_absent(items, x.name);
    let v = drop_named(items, x.name).push(x);
    assert forall|j: int| 0 <= j < drop_named(items, x.name).len() implies (#[trigger] v[j]).name != x.name by {
        assert(v[j] == drop_named(items, x.name)[j]);
    }
    crate::kubeconfig::lemma_find_named_exact(v, x.name, drop_named(items, x.name).len() as int);
}

/// A context copied into a kubeconfig comes with what it needs: pruning
/// the destination to the copied context succeeds.
pub proof fn law_copy_then_prune(src: KubeConfigView, dest: KubeConfigView, ctx: Seq<char>, target: Seq<char>)
    requires
        copied(src, dest, ctx, target) is Ok,
    ensures
        pruned(copied(src, dest, ctx, target)->Ok_0, target) is Ok,
{
    let d = copied(src, dest, ctx, target)->Ok_0;
    crate::kubeconfig::lemma_find_named(src.contexts, ctx);
    let i = find_named(src.contexts, ctx)->0;
    let (cl, us) = context_refs(src.contexts[i].rest)->Ok_0;
    crate::kubeconfig::lemma_find_named(src.clusters, cl);
    crate::kubeconfig::lemma_find_named(src.users, us);
    let j = find_named(src.clusters, cl)->0;
    let k = find_named(src.users, us)->0;
    let new_ctx = NamedItemView { name: target, rest: src.contexts[i].rest };
    lemma_find_last_named(dest.contexts, new_ctx);
    lemma_find_last_named(dest.clusters, src.clusters[j]);
    lemma_find_last_named(dest.users, src.users[k]);
}

// ---------------------------------------------------------------------------
// Numbers written and read back
// ---------------------------------------------------------------------------

proof fn lemma_digit_char(d: nat)
    requires
        d < 10,
    ensures
        digit_char(d) as int - '0' as int == d,
        '0' <= digit_char(d) && digit_char(d) <= '9',
{
    let u: u32 = (('0' as u32) + (d as u32)) as u32;
    assert(48 <= u < 58);
    assert(digit_char(d) == u as char);
}

proof fn lemma_decimal_digits(n: nat)
    ensures
        decimal(n).len() > 0,
        forall|i: int| 0 <= i < decimal(n).len() ==> '0' <= #[trigger] decimal(n)[i] && decimal(n)[i] <= '9',
        digits_value(decimal(n)) == n,
    decreases n,
{
    if n < 10 {
        lemma_digit_char(n);
        assert(decimal(n) == seq![digit_char(n)]);
        assert(decimal(n).drop_last() =~= Seq::<char>::empty());
        assert(digits_value(Seq::<char>::empty()) == 0);
        assert(decimal(n).last() == digit_char(n));
        assert(digits_value(decimal(n)) == digits_value(decimal(n).drop_last()) * 10 + ((decimal(n).last() as int - '0' as int) as nat));
    } else {
        lemma_digit_char(n % 10);
        lemma_decimal_digits(n / 10);
        let d = decimal(n / 10);
        let s = decimal(n);
        assert(s == d + seq![digit_char(n % 10)]);
        assert(s.drop_last() =~= d);
        assert(s.last() == digit_char(n % 10));
        assert(digits_value(s) == digits_value(d) * 10 + (n % 10));
        assert((n / 10) * 10 + n % 10 == n);
        assert forall|i: int| 0 <= i < s.len() implies '0' <= #[trigger] s[i] && s[i] <= '9' by {
            if i < d.len() {
                assert(s[i] == d[i]);
            }
        }
    }
}

/// A number written in decimal (as the shell depth is written into
/// `K8PK_DEPTH`) reads back as the same number.
pub proof fn law_decimal_roundtrip(n: nat, max: nat)
    requires
        n <= max,
    ensures
        parsed_decimal(decimal(n), max) == Some(n),
{
    lemma_decimal_digits(n);
    assert(decimal(n)[0] != '+');
}

// ---------------------------------------------------------------------------
// Organizing by cluster type
// ---------------------------------------------------------------------------

proof fn lemma_of_type_members(c: KubeConfigView, ctxs: Seq<NamedItemView>, t: Seq<char>)
    ensures
        forall|y: NamedItemView| #[trigger] of_type(c, ctxs, t).contains(y) ==> ctxs.contains(y) && context_type(c, y) == t,
        of_type(c, ctxs, t).len() <= ctxs.len(),
    decreases ctxs.len(),
{
    if ctxs.len() > 0 {
        let d = ctxs.drop_last();
        lemma_of_type_members(c, d, t);
        assert forall|y: NamedItemView| #[trigger] of_type(c, ctxs, t).contains(y) implies ctxs.contains(y) && context_type(c, y) == t by {
            let prev = of_type(c, d, t);
            if prev.contains(y) {
                let k = choose|k: int| 0 <= k < d.len() && d[k] == y;
                assert(ctxs[k] == y);
            } else {
                assert(y == ctxs.last());
                assert(ctxs[ctxs.len() - 1] == y);
            }
        }
    }
}

proof fn lemma_of_type_holds(c: KubeConfigView, ctxs: Seq<NamedItemView>, x: int)
    requires
        0 <= x < ctxs.len(),
    ensures
        of_type(c, ctxs, context_type(c, ctxs[x])).contains(ctxs[x]),
    decreases ctxs.len(),
{
    let t = context_type(c, ctxs[x]);
    let d = ctxs.drop_last();
    if x < ctxs.len() - 1 {
        lemma_of_type_holds(c, d, x);
        assert(d[x] == ctxs[x]);
        let prev = of_type(c, d, t);
        let k = choose|k: int| 0 <= k < prev.len() && prev[k] == ctxs[x];
        if context_type(c, ctxs.last()) == t {
            assert(prev.push(ctxs.last())[k] == ctxs[x]);
        }
    } else {
        let prev = of_type(c, d, t);
        assert(prev.push(ctxs.last())[prev.len() as int] == ctxs[x]);
    }
}

proof fn lemma_type_order(c: KubeConfigView, ctxs: Seq<NamedItemView>)
    ensures
        forall|x: int| 0 <= x < ctxs.len() ==> type_order(c, ctxs).contains(#[trigger] context_type(c, ctxs[x])),
        forall|i: int, j: int| 0 <= i < j < type_order(c, ctxs).len() ==> type_order(c, ctxs)[i] != type_order(c, ctxs)[j],
        forall|k: int| 0 <= k < type_order(c, ctxs).len() ==> (#[trigger] of_type(c, ctxs, type_order(c, ctxs)[k])).len() > 0,
    decreases ctxs.len(),
{
    if ctxs.len() > 0 {
        let d = ctxs.drop_last();
        lemma_type_order(c, d);
        let prev = type_order(c, d);
        let t = context_type(c, ctxs.last());
        let order = type_order(c, ctxs);
        assert forall|x: int| 0 <= x < ctxs.len() implies order.contains(#[trigger] context_type(c, ctxs[x])) by {
            if x < ctxs.len() - 1 {
                assert(d[x] == ctxs[x]);
                assert(prev.contains(context_type(c, d[x])));
                let k = choose|k: int| 0 <= k < prev.len() && prev[k] == context_type(c, d[x]);
                if !prev.contains(t) {
                    assert(order[k] == prev[k]);
                }
            } else {
                if !prev.contains(t) {
                    assert(order[prev.len() as int] == t);
                }
            }
        }
        assert forall|k: int| 0 <= k < order.len() implies (#[trigger] of_type(c, ctxs, order[k])).len() > 0 by {
            if k < prev.len() {
                assert(order[k] == prev[k]);
                assert(of_type(c, d, prev[k]).len() > 0);
            } else {
                assert(order[k] == t);
            }
        }
    }
}

/// Organizing puts every context in exactly one group: the group of its own
/// cluster type. The groups' types are distinct, no group is empty, and a
/// group holds nothing but contexts of the source.
pub proof fn law_organize_partitions(c: KubeConfigView)
    ensures
        forall|x: int| 0 <= x < c.contexts.len() ==> type_order(c, c.contexts).contains(#[trigger] context_type(c, c.contexts[x])),
        forall|x: int, t: Seq<char>| 0 <= x < c.contexts.len() ==> (#[trigger] of_type(c, c.contexts, t).contains(c.contexts[x]) <==> t == context_type(c, c.contexts[x])),
        forall|i: int, j: int| 0 <= i < j < type_order(c, c.contexts).len() ==> type_order(c, c.contexts)[i] != type_order(c, c.contexts)[j],
        forall|k: int| 0 <= k < type_order(c, c.contexts).len() ==> (#[trigger] of_type(c, c.contexts, type_order(c, c.contexts)[k])).len() > 0,
        forall|t: Seq<char>, y: NamedItemView| #[trigger] of_type(c, c.contexts, t).contains(y) ==> c.contexts.contains(y),
{
    lemma_type_order(c, c.contexts);
    assert forall|x: int, t: Seq<char>| 0 <= x < c.contexts.len() implies (#[trigger] of_type(c, c.contexts, t).contains(c.contexts[x]) <==> t == context_type(c, c.contexts[x])) by {
        lemma_of_type_holds(c, c.contexts, x);
        lemma_of_type_members(c, c.contexts, t);
    }
    assert forall|t: Seq<char>, y: NamedItemView| #[trigger] of_type(c, c.contexts, t).contains(y) implies c.contexts.contains(y) by {
        lemma_of_type_members(c, c.contexts, t);
    }
}

// ---------------------------------------------------------------------------
// Login kubeconfigs
// ---------------------------------------------------------------------------

/// A login writes a self-contained kubeconfig: pruning it to the login's
/// context gives it back unchanged (its context finds its cluster and user).
pub proof fn law_login_kubeconfig_complete(ctx: Seq<char>, cluster: YamlView, user: YamlView)
    ensures
        pruned(login_kubeconfig(ctx, cluster, user), ctx) == Ok::<KubeConfigView, (crate::error::ErrorKind, Seq<char>)>(
            login_kubeconfig(ctx, cluster, user),
        ),
{
    let c = login_kubeconfig(ctx, cluster, user);
    crate::kubeconfig::lemma_find_named_exact(c.contexts, ctx, 0);
    let ctx_map = seq![
        ("context"@, crate::rancher::ymap(seq![("cluster"@, YamlView::Str(ctx + "-cluster"@)), ("user"@, YamlView::Str(ctx + "-user"@))])),
    ].map_values(|e: (Seq<char>, YamlView)| (YamlView::Str(e.0), e.1));
    crate::yaml::lemma_entry_index_exact(ctx_map, "context"@, 0);
    let inner = seq![("cluster"@, YamlView::Str(ctx + "-cluster"@)), ("user"@, YamlView::Str(ctx + "-user"@))].map_values(
        |e: (Seq<char>, YamlView)| (YamlView::Str(e.0), e.1),
    );
    crate::yaml::lemma_entry_index_exact(inner, "cluster"@, 0);
    reveal_strlit("cluster");
    reveal_strlit("user");
    assert(inner[0].0 == YamlView::Str("cluster"@));
    assert("cluster"@.len() != "user"@.len());
    assert(!key_is(inner[0].0, "user"@));
    crate::yaml::lemma_entry_index_exact(inner, "user"@, 1);
    crate::kubeconfig::lemma_find_named_exact(c.clusters, ctx + "-cluster"@, 0);
    crate::kubeconfig::lemma_find_named_exact(c.users, ctx + "-user"@, 0);
    let q = pruned(c, ctx)->Ok_0;
    assert(q.clusters =~= c.clusters);
    assert(q.contexts =~= c.contexts);
    assert(q.users =~= c.users);
}

proof fn lemma_unique_by_name(v: Seq<NamedItemView>)
    ensures
        names(unique_by_name(v)).no_duplicates(),
    decreases v.len(),
{
    if v.len() > 0 {
        let prev = unique_by_name(v.drop_last());
        lemma_unique_by_name(v.drop_last());
        if find_named(prev, v.last().name) is None {
            crate::kubeconfig::lemma_find_named(prev, v.last().name);
            assert(names(prev.push(v.last())) =~= names(prev).push(v.last().name));
            if names(prev).contains(v.last().name) {
                let j = choose|j: int| 0 <= j < names(prev).len() && names(prev)[j] == v.last().name;
                assert(prev[j].name == v.last().name);
            }
            crate::kubeconfig_ops::lemma_push_no_duplicates(names(prev), v.last().name);
        }
    }
}

/// After `oc login`, the login's context takes over: context names are
/// unique, and the login's context is the last one whenever any is left.
pub proof fn law_adopted_context_unique(ctxs: Seq<NamedItemView>, name: Seq<char>)
    ensures
        names(adopted_contexts(ctxs, name)).no_duplicates(),
        adopted_contexts(ctxs, name).len() > 0 ==> adopted_contexts(ctxs, name).last().name == name,
{
    lemma_unique_by_name(ctxs);
    let kept = drop_named(unique_by_name(ctxs), name);
    lemma_drop_named_names(unique_by_name(ctxs), name);
    if kept.len() > 0 {
        let rest = kept.drop_last();
        let a = adopted_contexts(ctxs, name);
        assert(names(rest) =~= names(kept).drop_last());
        assert(names(a) =~= names(rest).push(name));
        assert(names(rest).no_duplicates()) by {
            assert forall|i: int, j: int| 0 <= i < names(rest).len() && 0 <= j < names(rest).len() && i != j implies names(rest)[i] != names(rest)[j] by {
                assert(names(rest)[i] == names(kept)[i]);
                assert(names(rest)[j] == names(kept)[j]);
            }
        }
        if names(rest).contains(name) {
            let j = choose|j: int| 0 <= j < names(rest).len() && names(rest)[j] == name;
            assert(names(kept)[j] == name);
            assert(names(kept).contains(name));
        }
        crate::kubeconfig_ops::lemma_push_no_duplicates(names(rest), name);
    }
}

// ---------------------------------------------------------------------------
// Kubeconfig discovery
// ---------------------------------------------------------------------------

/// No two of the paths are the same file.
pub open spec fn distinct_paths(s: Seq<Seq<char>>) -> bool {
    forall|i: int, j: int| 0 <= i < j < s.len() ==> !same_path(#[trigger] s[i], #[trigger] s[j])
}

proof fn lemma_push_distinct(a: Seq<Seq<char>>, p: Seq<char>)
    requires
        distinct_paths(a),
        !crate::kubeconfig::holds_path(a, p),
    ensures
        distinct_paths(a.push(p)),
{
    assert forall|i: int, j: int| 0 <= i < j < a.push(p).len() implies !same_path(#[trigger] a.push(p)[i], #[trigger] a.push(p)[j]) by {
        assert(a.push(p)[i] == a[i]);
        if j < a.len() {
            assert(a.push(p)[j] == a[j]);
        }
    }
}

proof fn lemma_entries_distinct(
    acc: Seq<Seq<char>>,
    glob: Seq<char>,
    excludes: Seq<Seq<char>>,
    home: Option<Seq<char>>,
    entries: Seq<FileEntry>,
)
    requires
        distinct_paths(acc),
    ensures
        entries_step(acc, glob, excludes, home, entries) matches Ok(a) ==> distinct_paths(a),
    decreases entries.len(),
{
    if entries.len() > 0 {
        lemma_entries_distinct(acc, glob, excludes, home, entries.drop_last());
        if let Ok(a) = entries_step(acc, glob, excludes, home, entries.drop_last()) {
            let p = entries.last().path@;
            if !crate::kubeconfig::holds_path(a, p) {
                lemma_push_distinct(a, p);
            }
        }
    }
}

proof fn lemma_configs_distinct(
    includes: Seq<Seq<char>>,
    excludes: Seq<Seq<char>>,
    home: Option<Seq<char>>,
    files: Seq<PatternFiles>,
    n: nat,
)
    ensures
        config_paths(includes, excludes, home, files, n) matches Ok(a) ==> distinct_paths(a),
    decreases n,
{
    if n > 0 {
        lemma_configs_distinct(includes, excludes, home, files, (n - 1) as nat);
        if let Ok(acc) = config_paths(includes, excludes, home, files, (n - 1) as nat) {
            let pattern = includes[n - 1];
            let e = crate::discovery::expanded(pattern, home);
            match files[n - 1] {
                PatternFiles::Glob { dir_exists, entries } => {
                    lemma_entries_distinct(acc, e, excludes, home, entries@);
                },
                PatternFiles::Direct { .. } => {
                    if !crate::kubeconfig::holds_path(acc, e) {
                        lemma_push_distinct(acc, e);
                    }
                },
            }
        }
    }
}

/// The configured patterns find each kubeconfig file once: no two paths
/// found are the same file.
pub proof fn law_found_files_distinct(
    includes: Seq<Seq<char>>,
    excludes: Seq<Seq<char>>,
    home: Option<Seq<char>>,
    files: Seq<PatternFiles>,
)
    ensures
        config_paths(includes, excludes, home, files, includes.len()) matches Ok(a) ==> distinct_paths(a),
{
    lemma_configs_distinct(includes, excludes, home, files, includes.len());
}

// ---------------------------------------------------------------------------
// Aliases
// ---------------------------------------------------------------------------

/// An alias just added resolves to its context; one just removed resolves
/// to itself again.
pub proof fn law_alias_add_remove(m: Map<Seq<char>, Seq<char>>, alias: Seq<char>, context: Seq<char>, removed: Set<Seq<char>>)
    ensures
        resolved_alias(Some(m.insert(alias, context)), alias) == context,
        removed.contains(alias) ==> resolved_alias(Some(m.remove_keys(removed)), alias) == alias,
{
}

// ---------------------------------------------------------------------------
// Credential vault
// ---------------------------------------------------------------------------

/// Credentials stored under a key are what a read of that key gives back,
/// other keys keep theirs, and after a delete the key has none.
pub proof fn law_vault_read_after_write(
    m: Map<Seq<char>, crate::login::VaultEntryView>,
    key: Seq<char>,
    other: Seq<char>,
    e: crate::login::VaultEntryView,
)
    requires
        other != key,
    ensures
        m.insert(key, e).contains_key(key) && m.insert(key, e)[key] == e,
        m.insert(key, e).contains_key(other) == m.contains_key(other),
        m.contains_key(other) ==> m.insert(key, e)[other] == m[other],
        !m.insert(key, e).remove(key).contains_key(key),
{
}

// ---------------------------------------------------------------------------
// Pickers
// ---------------------------------------------------------------------------

/// A picked label names the context it shows: taking the current-context
/// marker off a label gives the context's name back, for any name that does
/// not itself end in the marker.
pub proof fn law_picker_label_names_context(name: Seq<char>, current: bool)
    requires
        !(name.len() >= 2 && name.subrange(name.len() - 2, name.len() as int) == " *"@),
    ensures
        unmarked(marked(name, current)) == name,
{
    reveal_strlit(" *");
    if current {
        let l = name + " *"@;
        assert(l.subrange(l.len() - 2, l.len() as int) =~= " *"@);
        assert(l.subrange(0, l.len() - 2) =~= name);
    }
}

// ---------------------------------------------------------------------------
// Pruning to one context
// ---------------------------------------------------------------------------

/// Position `i` holds the first item named `n`.
pub open spec fn first_named_at(v: Seq<NamedItemView>, i: int, n: Seq<char>) -> bool {
    0 <= i < v.len() && v[i].name == n && forall|j: int| 0 <= j < i ==> (#[trigger] v[j]).name != n
}

/// Pruning to a context fails with "context not found" exactly when no
/// context has its name; when it succeeds it keeps the first context of
/// that name, the first cluster and the first user of the names it refers
/// to, and nothing else, with that context current.
pub proof fn law_prune_keeps_first_items(c: KubeConfigView, name: Seq<char>)
    ensures
        (forall|i: int| 0 <= i < c.contexts.len() ==> (#[trigger] c.contexts[i]).name != name) <==> pruned(c, name)
            == Err::<KubeConfigView, (crate::error::ErrorKind, Seq<char>)>((crate::error::ErrorKind::ContextNotFound, name)),
        pruned(c, name) matches Ok(k) ==> exists|i: int, j: int, l: int|
            #![trigger c.contexts[i], c.clusters[j], c.users[l]]
            first_named_at(c.contexts, i, name) && context_refs(c.contexts[i].rest) == Ok::<(Seq<char>, Seq<char>), Seq<char>>(
                (c.clusters[j].name, c.users[l].name),
            ) && first_named_at(c.clusters, j, c.clusters[j].name) && first_named_at(c.users, l, c.users[l].name)
                && k.contexts == seq![c.contexts[i]] && k.clusters == seq![c.clusters[j]] && k.users == seq![c.users[l]]
                && k.current_context == Some(name) && k.api_version == Some("v1"@) && k.kind == Some("Config"@)
                && k.extensions is None,
{
    crate::kubeconfig::lemma_find_named(c.contexts, name);
    match find_named(c.contexts, name) {
        Some(i) => {
            assert(c.contexts[i].name == name);
            match context_refs(c.contexts[i].rest) {
                Ok((cl, u)) => {
                    crate::kubeconfig::lemma_find_named(c.clusters, cl);
                    crate::kubeconfig::lemma_find_named(c.users, u);
                    match (find_named(c.clusters, cl), find_named(c.users, u)) {
                        (Some(j), Some(l)) => {
                            assert(first_named_at(c.contexts, i, name));
                            assert(first_named_at(c.clusters, j, c.clusters[j].name));
                            assert(first_named_at(c.users, l, c.users[l].name));
                        },
                        _ => {},
                    }
                },
                Err(_) => {},
            }
        },
        None => {},
    }
}

// ---------------------------------------------------------------------------
// TLS errors
// ---------------------------------------------------------------------------

proof fn lemma_contains_prefix(s: Seq<char>, p: Seq<char>, q: Seq<char>)
    requires
        contains_seq(s, p),
        q.len() <= p.len(),
        p.subrange(0, q.len() as int) == q,
    ensures
        contains_seq(s, q),
{
    let i = choose|i: int| match_at(s, p, i);
    assert(s.subrange(i, i + q.len()) =~= p.subrange(0, q.len() as int));
    assert(match_at(s, q, i));
}

/// Of the phrases that mark a TLS error, the four short ones decide: each
/// longer one starts with `certificate` or `tls:`.
pub proof fn law_tls_error_short_patterns(s: Seq<char>)
    ensures
        (exists|i: int| 0 <= i < tls_patterns().len() && contains_seq(s, #[trigger] tls_patterns()[i])) <==> (
            contains_seq(s, "certificate"@) || contains_seq(s, "x509"@) || contains_seq(s, "tls:"@) || contains_seq(
            s,
            "ssl"@,
        )),
{
    reveal_strlit("certificate");
    reveal_strlit("tls:");
    reveal_strlit("certificate signed by unknown authority");
    reveal_strlit("certificate is not trusted");
    reveal_strlit("certificate has expired");
    reveal_strlit("tls: failed to verify");
    reveal_strlit("certificate is valid for");
    let ps = tls_patterns();
    let cert = "certificate"@;
    let tls = "tls:"@;
    if exists|i: int| 0 <= i < ps.len() && contains_seq(s, #[trigger] ps[i]) {
        let i = choose|i: int| 0 <= i < ps.len() && contains_seq(s, #[trigger] ps[i]);
        if i == 3 || i == 4 || i == 5 || i == 7 {
            assert(ps[i].subrange(0, cert.len() as int) =~= cert);
            lemma_contains_prefix(s, ps[i], cert);
        } else if i == 6 {
            assert(ps[i].subrange(0, tls.len() as int) =~= tls);
            lemma_contains_prefix(s, ps[i], tls);
        }
    }
    if contains_seq(s, "certificate"@) {
        assert(contains_seq(s, ps[0]));
    } else if contains_seq(s, "x509"@) {
        assert(contains_seq(s, ps[1]));
    } else if contains_seq(s, "tls:"@) {
        assert(contains_seq(s, ps[2]));
    } else if contains_seq(s, "ssl"@) {
        assert(contains_seq(s, ps[8]));
    }
}

// ---------------------------------------------------------------------------
// Re-login
// ---------------------------------------------------------------------------

/// An OpenShift or Rancher re-login reads the vault first; what the vault
/// holds is used only where it can be (for Rancher, only behind a proxy
/// URL); with no entry for the context a hint is shown exactly when the
/// vault holds other credentials; and stale vault credentials lead to the
/// prompt for new ones.
pub proof fn law_relogin_vault_first(s: ReloginStateView, e: ReloginEventView, server: Seq<char>, context: Seq<char>, insecure: bool, token_auth: bool)
    ensures
        relogin_begin(LoginType::Ocp, server, context, insecure, token_auth).1 is LookUpVault,
        relogin_begin(LoginType::Rancher, server, context, insecure, token_auth).1 is LookUpVault,
        s.phase == ReloginPhase::Lookup && (e matches ReloginEventView::VaultLookup { entry: Some(_), .. }) ==> (
            relogin_next(s, e).1 is LogIn <==> !(s.login_type == LoginType::Rancher && !server_base(s.server).1)),
        s.phase == ReloginPhase::Lookup ==> (e matches ReloginEventView::VaultLookup { entry: None, has_keys } ==> (
            relogin_next(s, e).1 is Hint <==> has_keys)),
        s.phase == ReloginPhase::FromVault && e is LoginErr ==> relogin_next(s, e).1 == credential_prompt(s),
{
}

/// A login with typed-in credentials is retried at most once: the question
/// comes only after the first such login was refused for its credentials,
/// and a failed retry ends the re-login.
pub proof fn law_relogin_retries_once(s: ReloginStateView, e: ReloginEventView)
    ensures
        relogin_next(s, e).1 is AskRetry ==> s.phase == ReloginPhase::FirstTry && (e matches ReloginEventView::LoginErr(m)
            && (contains_seq(m, "401"@) || contains_seq(m, "Unauthorized"@) || (s.login_type == LoginType::Ocp
            && contains_seq(m, "oc login failed"@)))),
        s.phase == ReloginPhase::LastTry && e is LoginErr ==> relogin_next(s, e).1 is Fail,
        relogin_next(s, e).0.phase == ReloginPhase::LastTry ==> s.phase == ReloginPhase::AskingAgain,
{
}

/// Credentials are remembered only after a successful login with a typed-in
/// username and password, and go under the key the next re-login reads
/// first. They are those typed in for the login that succeeded, except that
/// after a Rancher retry they are the first ones typed in.
pub proof fn law_relogin_remembers_typed_credentials(s: ReloginStateView, e: ReloginEventView)
    ensures
        s.phase == ReloginPhase::Asking ==> (e matches ReloginEventView::Credentials { auth, .. } ==> (relogin_next(
            s,
            e,
        ).0.phase == ReloginPhase::FirstTry ==> relogin_next(s, e).0.to_remember == Some(auth))),
        s.phase == ReloginPhase::AskingAgain ==> (e matches ReloginEventView::Credentials { auth, .. } ==> relogin_next(
            s,
            e,
        ).0.to_remember == (if s.login_type == LoginType::Rancher {
            s.to_remember
        } else {
            Some(auth)
        })),
        relogin_next(s, e).1 matches ReloginActionView::Remember { key, entry } ==> e is LoginOk && (s.phase
            == ReloginPhase::FirstTry || s.phase == ReloginPhase::LastTry) && (s.to_remember matches Some(
            AuthView::UserPass(u, p),
        ) && entry.username == u && entry.password == p) && (s.login_type == LoginType::Ocp || s.login_type
            == LoginType::Rancher) && key == (if s.login_type == LoginType::Ocp {
            "ocp:"@ + s.server
        } else {
            "rancher:"@ + s.server
        }),
{
}

/// Every step keeps a re-login's state well formed.
pub proof fn law_relogin_keeps_well_formed(s: ReloginStateView, e: ReloginEventView, server: Seq<char>, context: Seq<char>, insecure: bool, token_auth: bool, t: LoginType)
    requires
        relogin_wf(s),
    ensures
        relogin_wf(relogin_next(s, e).0),
        relogin_wf(relogin_begin(t, server, context, insecure, token_auth).0),
{
}

// ---------------------------------------------------------------------------
// Cluster types and login types from URLs
// ---------------------------------------------------------------------------

/// A context name that carries no cluster-type marker of its own.
pub open spec fn unmarked_name(name: Seq<char>) -> bool {
    &&& !has_prefix(name, "arn:aws:eks:"@)
    &&& !has_prefix(name, "gke_"@)
    &&& !(contains_seq(name, "/api."@) && contains_seq(name, ":6443"@))
    &&& !has_prefix(name, "aks-"@)
    &&& !contains_seq(name, "azure"@)
}

/// For a context name without a type marker, the server URL decides: an
/// EKS host gives `eks`; a GKE host `gke`; port 6443 or an OpenShift marker
/// `ocp`; an AKS host (`.azmk8s.io`) or `azure` gives `aks`, when no earlier
/// marker is present; anything else is plain `k8s`, as is a missing URL.
pub proof fn law_cluster_type_from_url(name: Seq<char>, u: Seq<char>)
    requires
        unmarked_name(name),
    ensures
        contains_seq(u, ".eks.amazonaws.com"@) ==> cluster_type(name, Some(u)) == "eks"@,
        !contains_seq(u, ".eks.amazonaws.com"@) && (contains_seq(u, ".container.googleapis.com"@) || contains_seq(u, "gke.io"@))
            ==> cluster_type(name, Some(u)) == "gke"@,
        (contains_seq(u, ".azmk8s.io"@) || contains_seq(u, "azure"@)) && !contains_seq(u, ".eks.amazonaws.com"@)
            && !contains_seq(u, ".container.googleapis.com"@) && !contains_seq(u, "gke.io"@) && !contains_seq(u, ":6443"@)
            && !contains_seq(u, "openshift"@) && !contains_seq(u, "ocp"@) ==> cluster_type(name, Some(u)) == "aks"@,
        !contains_seq(u, ".eks.amazonaws.com"@) && !contains_seq(u, ".container.googleapis.com"@) && !contains_seq(u, "gke.io"@)
            && (contains_seq(u, ":6443"@) || contains_seq(u, "openshift"@) || contains_seq(u, "ocp"@)) ==> cluster_type(
            name,
            Some(u),
        ) == "ocp"@,
        !contains_seq(u, ".eks.amazonaws.com"@) && !contains_seq(u, ".container.googleapis.com"@) && !contains_seq(u, "gke.io"@)
            && !contains_seq(u, ":6443"@) && !contains_seq(u, "openshift"@) && !contains_seq(u, "ocp"@) && !contains_seq(
            u,
            ".azmk8s.io"@,
        ) && !contains_seq(u, "azure"@) ==> cluster_type(name, Some(u)) == "k8s"@,
        cluster_type(name, None) == "k8s"@,
{
}

/// The context name's own marker decides before the URL: an EKS ARN gives
/// `eks`, a `gke_` name `gke`, an OpenShift-style `.../api.HOST:6443/...`
/// name `ocp`, and an `aks-` name or one mentioning `azure` gives `aks`,
/// whatever the URL.
pub proof fn law_cluster_type_from_name(name: Seq<char>, url: Option<Seq<char>>)
    ensures
        has_prefix(name, "arn:aws:eks:"@) ==> cluster_type(name, url) == "eks"@,
        !has_prefix(name, "arn:aws:eks:"@) && has_prefix(name, "gke_"@) ==> cluster_type(name, url) == "gke"@,
        !has_prefix(name, "arn:aws:eks:"@) && !has_prefix(name, "gke_"@) && contains_seq(name, "/api."@) && contains_seq(
            name,
            ":6443"@,
        ) ==> cluster_type(name, url) == "ocp"@,
        !has_prefix(name, "arn:aws:eks:"@) && !has_prefix(name, "gke_"@) && !(contains_seq(name, "/api."@) && contains_seq(
            name,
            ":6443"@,
        )) && (has_prefix(name, "aks-"@) || contains_seq(name, "azure"@)) ==> cluster_type(name, url) == "aks"@,
{
}

/// A server URL whose lower-case form holds a Rancher proxy path
/// (`/k8s/clusters/`) or the word `rancher`, and no EKS, GKE or AKS
/// marker, is a Rancher login.
pub proof fn law_rancher_url_detected(lower: Seq<char>)
    requires
        contains_seq(lower, "/k8s/clusters/"@) || contains_seq(lower, "rancher"@),
        !contains_seq(lower, ".eks.amazonaws.com"@),
        !contains_seq(lower, ".container.googleapis.com"@),
        !contains_seq(lower, "gke.io"@),
        !contains_seq(lower, ".azmk8s.io"@),
        !contains_seq(lower, "azure"@),
    ensures
        login_type_for_url(lower) == Some(LoginType::Rancher),
{
}

/// What a server URL (lower-cased) says of the login type: an EKS or AKS
/// host is plain Kubernetes, a GKE host is GKE, an OpenShift marker with
/// none of the others is OpenShift, and a URL with no marker at all is not
/// recognised.
pub proof fn law_login_type_from_url(lower: Seq<char>)
    ensures
        contains_seq(lower, ".eks.amazonaws.com"@) ==> login_type_for_url(lower) == Some(LoginType::K8s),
        !contains_seq(lower, ".eks.amazonaws.com"@) && (contains_seq(lower, ".container.googleapis.com"@) || contains_seq(
            lower,
            "gke.io"@,
        )) ==> login_type_for_url(lower) == Some(LoginType::Gke),
        !contains_seq(lower, ".eks.amazonaws.com"@) && !contains_seq(lower, ".container.googleapis.com"@) && !contains_seq(
            lower,
            "gke.io"@,
        ) && (contains_seq(lower, ".azmk8s.io"@) || contains_seq(lower, "azure"@)) ==> login_type_for_url(lower) == Some(
            LoginType::K8s,
        ),
        !contains_seq(lower, ".eks.amazonaws.com"@) && !contains_seq(lower, ".container.googleapis.com"@) && !contains_seq(
            lower,
            "gke.io"@,
        ) && !contains_seq(lower, ".azmk8s.io"@) && !contains_seq(lower, "azure"@) && !contains_seq(lower, "rancher"@)
            && !contains_seq(lower, "/k8s/clusters/"@) && (contains_seq(lower, "openshift"@) || contains_seq(lower, "ocp"@))
            ==> login_type_for_url(lower) == Some(LoginType::Ocp),
        !contains_seq(lower, ".eks.amazonaws.com"@) && !contains_seq(lower, ".container.googleapis.com"@) && !contains_seq(
            lower,
            "gke.io"@,
        ) && !contains_seq(lower, ".azmk8s.io"@) && !contains_seq(lower, "azure"@) && !contains_seq(lower, "rancher"@)
            && !contains_seq(lower, "/k8s/clusters/"@) && !contains_seq(lower, "openshift"@) && !contains_seq(lower, "ocp"@)
            ==> login_type_for_url(lower) is None,
{
}

// ---------------------------------------------------------------------------
// Matching contexts by pattern
// ---------------------------------------------------------------------------

proof fn lemma_substring_hits_members(p: Seq<char>, cs: Seq<Seq<char>>)
    ensures
        forall|c: Seq<char>| #[trigger] substring_hits(p, cs).contains(c) <==> (cs.contains(c) && contains_seq(
            lowercase(c),
            lowercase(p),
        )),
    decreases cs.len(),
{
    if cs.len() > 0 {
        let d = cs.drop_last();
        lemma_substring_hits_members(p, d);
        let r = substring_hits(p, d);
        assert forall|c: Seq<char>| #[trigger] substring_hits(p, cs).contains(c) <==> (cs.contains(c)
            && contains_seq(lowercase(c), lowercase(p))) by {
            crate::kubeconfig_ops::lemma_contains_push(r, cs.last(), c);
            crate::kubeconfig_ops::lemma_contains_push(d, cs.last(), c);
            assert(cs =~= d.push(cs.last()));
        }
    }
}

/// A pattern with no glob characters that names no context exactly selects
/// the contexts that hold it case-insensitively anywhere in their name
/// (not only at the start), and only those.
pub proof fn law_plain_pattern_matches_substrings(p: Seq<char>, cs: Seq<Seq<char>>, c: Seq<char>)
    requires
        !is_glob(p),
        !cs.contains(p),
    ensures
        pattern_matches(p, cs).contains(c) <==> (cs.contains(c) && exists|i: int|
            0 <= i && i + lowercase(p).len() <= lowercase(c).len() && #[trigger] lowercase(c).subrange(
                i,
                i + lowercase(p).len(),
            ) == lowercase(p)),
{
    lemma_substring_hits_members(p, cs);
    assert(pattern_matches(p, cs) == substring_hits(p, cs));
    if pattern_matches(p, cs).contains(c) {
        let i = choose|i: int| match_at(lowercase(c), lowercase(p), i);
        assert(lowercase(c).subrange(i, i + lowercase(p).len()) == lowercase(p));
    }
    if cs.contains(c) && exists|i: int|
        0 <= i && i + lowercase(p).len() <= lowercase(c).len() && #[trigger] lowercase(c).subrange(
            i,
            i + lowercase(p).len(),
        ) == lowercase(p) {
        let i = choose|i: int|
            0 <= i && i + lowercase(p).len() <= lowercase(c).len() && #[trigger] lowercase(c).subrange(
                i,
                i + lowercase(p).len(),
            ) == lowercase(p);
        assert(match_at(lowercase(c), lowercase(p), i));
    }
}

proof fn lemma_glob_hits_members(p: Seq<char>, cs: Seq<Seq<char>>)
    ensures
        forall|c: Seq<char>| #[trigger] glob_hits(p, cs).contains(c) <==> (cs.contains(c) && glob_match(p, c)),
    decreases cs.len(),
{
    if cs.len() > 0 {
        let d = cs.drop_last();
        lemma_glob_hits_members(p, d);
        let r = glob_hits(p, d);
        assert forall|c: Seq<char>| #[trigger] glob_hits(p, cs).contains(c) <==> (cs.contains(c) && glob_match(p, c)) by {
            crate::kubeconfig_ops::lemma_contains_push(r, cs.last(), c);
            crate::kubeconfig_ops::lemma_contains_push(d, cs.last(), c);
            assert(cs =~= d.push(cs.last()));
        }
    }
}

/// A pattern that is itself a context's name selects that context alone;
/// otherwise a glob selects the contexts it matches (none when globset
/// cannot use it).
pub proof fn law_pattern_exact_then_glob(p: Seq<char>, cs: Seq<Seq<char>>, c: Seq<char>)
    ensures
        cs.contains(p) ==> pattern_matches(p, cs) == seq![p],
        !cs.contains(p) && is_glob(p) ==> (pattern_matches(p, cs).contains(c) <==> (cs.contains(c) && glob_ok(p)
            && glob_match(p, c))),
{
    lemma_glob_hits_members(p, cs);
}

// ---------------------------------------------------------------------------
// Renaming a context
// ---------------------------------------------------------------------------

/// Renaming a context that exists gives a context of the new name where the
/// old one was; the current context follows the rename when it was the
/// renamed one and is otherwise untouched, so when set it is the new name
/// or a name it had before other than the old one.
pub proof fn law_rename_follows_current(c: KubeConfigView, old_name: Seq<char>, new_name: Seq<char>)
    requires
        find_named(c.contexts, old_name) is Some,
    ensures
        renamed(c, old_name, new_name).contexts.len() == c.contexts.len(),
        names(renamed(c, old_name, new_name).contexts).contains(new_name),
        c.current_context == Some(old_name) ==> renamed(c, old_name, new_name).current_context == Some(new_name),
        c.current_context != Some(old_name) ==> renamed(c, old_name, new_name).current_context == c.current_context,
        renamed(c, old_name, new_name).current_context matches Some(x) ==> x == new_name || (c.current_context == Some(x)
            && x != old_name),
        exists|i: int|
            first_named_at(c.contexts, i, old_name) && #[trigger] renamed(c, old_name, new_name).contexts[i]
                == (NamedItemView { name: new_name, rest: c.contexts[i].rest }) && forall|j: int|
                0 <= j < c.contexts.len() && j != i ==> renamed(c, old_name, new_name).contexts[j] == c.contexts[j],
        renamed(c, old_name, new_name).clusters == c.clusters,
        renamed(c, old_name, new_name).users == c.users,
{
    crate::kubeconfig::lemma_find_named(c.contexts, old_name);
    let i = find_named(c.contexts, old_name)->0;
    let r = renamed(c, old_name, new_name);
    assert(names(r.contexts)[i] == new_name);
    assert(first_named_at(c.contexts, i, old_name));
}

// ---------------------------------------------------------------------------
// Shell exports
// ---------------------------------------------------------------------------

proof fn lemma_contains_mid(a: Seq<char>, m: Seq<char>, b: Seq<char>)
    ensures
        contains_seq(a + m + b, m),
{
    assert((a + m + b).subrange(a.len() as int, (a.len() + m.len()) as int) =~= m);
    assert(match_at(a + m + b, m, a.len() as int));
}

proof fn lemma_exports_shape(
    k0: Seq<char>, k1: Seq<char>, c0: Seq<char>, c1: Seq<char>, d0: Seq<char>,
    q: Seq<char>, nl: Seq<char>, kk: Seq<char>, cc: Seq<char>, dd: Seq<char>, ee: Seq<char>,
    kubeconfig: Seq<char>, cache_dir: Seq<char>, context: Seq<char>, display: Seq<char>, rest: Seq<char>,
)
    requires
        k1 == q + kk,
        c0 == q + nl + cc,
        c1 == q + nl + dd,
        d0 == q + ee,
    ensures
        contains_seq(k0 + kubeconfig + k1 + cache_dir + c0 + context + c1 + display + d0 + rest, cc + context + q),
        contains_seq(k0 + kubeconfig + k1 + cache_dir + c0 + context + c1 + display + d0 + rest, dd + display + q),
        has_prefix(k0 + kubeconfig + k1 + cache_dir + c0 + context + c1 + display + d0 + rest, k0 + kubeconfig + q),
{
    let t = k0 + kubeconfig + k1 + cache_dir + c0 + context + c1 + display + d0 + rest;
    let a1 = k0 + kubeconfig + k1 + cache_dir + q + nl;
    let b1 = nl + dd + display + d0 + rest;
    assert(t =~= a1 + (cc + context + q) + b1);
    lemma_contains_mid(a1, cc + context + q, b1);
    let a2 = k0 + kubeconfig + k1 + cache_dir + c0 + context + q + nl;
    let b2 = ee + rest;
    assert(t =~= a2 + (dd + display + q) + b2);
    lemma_contains_mid(a2, dd + display + q, b2);
    let n3 = k0 + kubeconfig + q;
    assert(t =~= n3 + (kk + cache_dir + c0 + context + c1 + display + d0 + rest));
    assert(t.subrange(0, n3.len() as int) =~= n3);
}

proof fn lemma_namespace_tail(pre: Seq<char>, a: Seq<char>, b: Seq<char>, c: Seq<char>, q: Seq<char>, nl: Seq<char>, o: Seq<char>, ns: Seq<char>)
    requires
        b == q + nl + o,
        c == q + nl,
    ensures
        contains_seq(pre + (a + ns + b + ns + c), a + ns + q),
        contains_seq(pre + (a + ns + b + ns + c), o + ns + q),
{
    let t = pre + (a + ns + b + ns + c);
    assert(t =~= pre + (a + ns + q) + (nl + o + ns + c));
    lemma_contains_mid(pre, a + ns + q, nl + o + ns + c);
    assert(t =~= (pre + a + ns + q + nl) + (o + ns + q) + nl);
    lemma_contains_mid(pre + a + ns + q + nl, o + ns + q, nl);
}

/// The exports set `K8PK_CONTEXT` to exactly the context given and
/// `K8PK_CONTEXT_DISPLAY` to exactly the display name given, and start by
/// pointing `KUBECONFIG` at the kubeconfig given, for POSIX shells.
pub proof fn law_exports_name_the_context(
    shell: Seq<char>,
    kubeconfig: Seq<char>,
    cache_dir: Seq<char>,
    context: Seq<char>,
    display: Seq<char>,
    namespace: Option<Seq<char>>,
)
    requires
        shell != "fish"@,
    ensures
        contains_seq(
            exports_text(shell, kubeconfig, cache_dir, context, display, namespace),
            "export K8PK_CONTEXT=\""@ + context + "\";"@,
        ),
        contains_seq(
            exports_text(shell, kubeconfig, cache_dir, context, display, namespace),
            "export K8PK_CONTEXT_DISPLAY=\""@ + display + "\";"@,
        ),
        has_prefix(
            exports_text(shell, kubeconfig, cache_dir, context, display, namespace),
            "export KUBECONFIG=\""@ + kubeconfig + "\";"@,
        ),
        namespace matches Some(ns) ==> contains_seq(
            exports_text(shell, kubeconfig, cache_dir, context, display, namespace),
            "export K8PK_NAMESPACE=\""@ + ns + "\";"@,
        ) && contains_seq(
            exports_text(shell, kubeconfig, cache_dir, context, display, namespace),
            "export OC_NAMESPACE=\""@ + ns + "\";"@,
        ),
{
    let q = "\";"@;
    let nl = "\n"@;
    assert("\";\nexport KUBECACHEDIR=\""@ == q + "\nexport KUBECACHEDIR=\""@) by {
        reveal_strlit("\";");
        reveal_strlit("\";\nexport KUBECACHEDIR=\"");
        reveal_strlit("\nexport KUBECACHEDIR=\"");
        assert("\";\nexport KUBECACHEDIR=\""@ =~= q + "\nexport KUBECACHEDIR=\""@);
    }
    assert("\";\nexport K8PK_CONTEXT=\""@ == q + nl + "export K8PK_CONTEXT=\""@) by {
        reveal_strlit("\";");
        reveal_strlit("\n");
        reveal_strlit("\";\nexport K8PK_CONTEXT=\"");
        reveal_strlit("export K8PK_CONTEXT=\"");
        assert("\";\nexport K8PK_CONTEXT=\""@ =~= q + nl + "export K8PK_CONTEXT=\""@);
    }
    assert("\";\nexport K8PK_CONTEXT_DISPLAY=\""@ == q + nl + "export K8PK_CONTEXT_DISPLAY=\""@) by {
        reveal_strlit("\";");
        reveal_strlit("\n");
        reveal_strlit("\";\nexport K8PK_CONTEXT_DISPLAY=\"");
        reveal_strlit("export K8PK_CONTEXT_DISPLAY=\"");
        assert("\";\nexport K8PK_CONTEXT_DISPLAY=\""@ =~= q + nl + "export K8PK_CONTEXT_DISPLAY=\""@);
    }
    assert("\";\nexport K8PK_DEPTH=1;\n"@ == q + "\nexport K8PK_DEPTH=1;\n"@) by {
        reveal_strlit("\";");
        reveal_strlit("\";\nexport K8PK_DEPTH=1;\n");
        reveal_strlit("\nexport K8PK_DEPTH=1;\n");
        assert("\";\nexport K8PK_DEPTH=1;\n"@ =~= q + "\nexport K8PK_DEPTH=1;\n"@);
    }
    let rest = match namespace {
        Some(ns) => "export K8PK_NAMESPACE=\""@ + ns + "\";\nexport OC_NAMESPACE=\""@ + ns + "\";\n"@,
        None => Seq::<char>::empty(),
    };
    lemma_exports_shape(
        "export KUBECONFIG=\""@,
        "\";\nexport KUBECACHEDIR=\""@,
        "\";\nexport K8PK_CONTEXT=\""@,
        "\";\nexport K8PK_CONTEXT_DISPLAY=\""@,
        "\";\nexport K8PK_DEPTH=1;\n"@,
        q,
        nl,
        "\nexport KUBECACHEDIR=\""@,
        "export K8PK_CONTEXT=\""@,
        "export K8PK_CONTEXT_DISPLAY=\""@,
        "\nexport K8PK_DEPTH=1;\n"@,
        kubeconfig,
        cache_dir,
        context,
        display,
        rest,
    );
    if let Some(ns) = namespace {
        assert("\";\nexport OC_NAMESPACE=\""@ == q + nl + "export OC_NAMESPACE=\""@) by {
            reveal_strlit("\";");
            reveal_strlit("\n");
            reveal_strlit("\";\nexport OC_NAMESPACE=\"");
            reveal_strlit("export OC_NAMESPACE=\"");
            assert("\";\nexport OC_NAMESPACE=\""@ =~= q + nl + "export OC_NAMESPACE=\""@);
        }
        assert("\";\n"@ == q + nl) by {
            reveal_strlit("\";");
            reveal_strlit("\n");
            reveal_strlit("\";\n");
            assert("\";\n"@ =~= q + nl);
        }
        let t = exports_text(shell, kubeconfig, cache_dir, context, display, namespace);
        let pre = "export KUBECONFIG=\""@ + kubeconfig + "\";\nexport KUBECACHEDIR=\""@ + cache_dir
            + "\";\nexport K8PK_CONTEXT=\""@ + context + "\";\nexport K8PK_CONTEXT_DISPLAY=\""@ + display
            + "\";\nexport K8PK_DEPTH=1;\n"@;
        assert(t == pre + ("export K8PK_NAMESPACE=\""@ + ns + "\";\nexport OC_NAMESPACE=\""@ + ns + "\";\n"@));
        lemma_namespace_tail(
            pre,
            "export K8PK_NAMESPACE=\""@,
            "\";\nexport OC_NAMESPACE=\""@,
            "\";\n"@,
            q,
            nl,
            "export OC_NAMESPACE=\""@,
            ns,
        );
    }
}

/// The fish form of the exports sets `K8PK_CONTEXT` to exactly the context
/// given and `K8PK_CONTEXT_DISPLAY` to exactly the display name given, and
/// starts by pointing `KUBECONFIG` at the kubeconfig given.
pub proof fn law_fish_exports_name_the_context(
    kubeconfig: Seq<char>,
    cache_dir: Seq<char>,
    context: Seq<char>,
    display: Seq<char>,
    namespace: Option<Seq<char>>,
)
    ensures
        contains_seq(
            exports_text("fish"@, kubeconfig, cache_dir, context, display, namespace),
            "set -gx K8PK_CONTEXT \""@ + context + "\";"@,
        ),
        contains_seq(
            exports_text("fish"@, kubeconfig, cache_dir, context, display, namespace),
            "set -gx K8PK_CONTEXT_DISPLAY \""@ + display + "\";"@,
        ),
        has_prefix(
            exports_text("fish"@, kubeconfig, cache_dir, context, display, namespace),
            "set -gx KUBECONFIG \""@ + kubeconfig + "\";"@,
        ),
{
    let q = "\";"@;
    let nl = "\n"@;
    assert("\";\nset -gx KUBECACHEDIR \""@ == q + "\nset -gx KUBECACHEDIR \""@) by {
        reveal_strlit("\";");
        reveal_strlit("\";\nset -gx KUBECACHEDIR \"");
        reveal_strlit("\nset -gx KUBECACHEDIR \"");
        assert("\";\nset -gx KUBECACHEDIR \""@ =~= q + "\nset -gx KUBECACHEDIR \""@);
    }
    assert("\";\nset -gx K8PK_CONTEXT \""@ == q + nl + "set -gx K8PK_CONTEXT \""@) by {
        reveal_strlit("\";");
        reveal_strlit("\n");
        reveal_strlit("\";\nset -gx K8PK_CONTEXT \"");
        reveal_strlit("set -gx K8PK_CONTEXT \"");
        assert("\";\nset -gx K8PK_CONTEXT \""@ =~= q + nl + "set -gx K8PK_CONTEXT \""@);
    }
    assert("\";\nset -gx K8PK_CONTEXT_DISPLAY \""@ == q + nl + "set -gx K8PK_CONTEXT_DISPLAY \""@) by {
        reveal_strlit("\";");
        reveal_strlit("\n");
        reveal_strlit("\";\nset -gx K8PK_CONTEXT_DISPLAY \"");
        reveal_strlit("set -gx K8PK_CONTEXT_DISPLAY \"");
        assert("\";\nset -gx K8PK_CONTEXT_DISPLAY \""@ =~= q + nl + "set -gx K8PK_CONTEXT_DISPLAY \""@);
    }
    assert("\";\nset -gx K8PK_DEPTH 1;\n"@ == q + "\nset -gx K8PK_DEPTH 1;\n"@) by {
        reveal_strlit("\";");
        reveal_strlit("\";\nset -gx K8PK_DEPTH 1;\n");
        reveal_strlit("\nset -gx K8PK_DEPTH 1;\n");
        assert("\";\nset -gx K8PK_DEPTH 1;\n"@ =~= q + "\nset -gx K8PK_DEPTH 1;\n"@);
    }
    let rest = match namespace {
        Some(ns) => "set -gx K8PK_NAMESPACE \""@ + ns + "\";\nset -gx OC_NAMESPACE \""@ + ns + "\";\n"@,
        None => Seq::<char>::empty(),
    };
    lemma_exports_shape(
        "set -gx KUBECONFIG \""@,
        "\";\nset -gx KUBECACHEDIR \""@,
        "\";\nset -gx K8PK_CONTEXT \""@,
        "\";\nset -gx K8PK_CONTEXT_DISPLAY \""@,
        "\";\nset -gx K8PK_DEPTH 1;\n"@,
        q,
        nl,
        "\nset -gx KUBECACHEDIR \""@,
        "set -gx K8PK_CONTEXT \""@,
        "set -gx K8PK_CONTEXT_DISPLAY \""@,
        "\nset -gx K8PK_DEPTH 1;\n"@,
        kubeconfig,
        cache_dir,
        context,
        display,
        rest,
    );
}

} // verus!
