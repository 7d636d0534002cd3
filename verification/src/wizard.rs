//! The interactive login wizard's choices, and the text it reads: exec
//! arguments, exec environment entries and a timeout.

use vstd::prelude::*;
use crate::error::{ErrorKind, K8pkError};
use crate::text::{
    char_is_ws, chars_of, is_ws, owned, parse_decimal, parsed_decimal, split_seq, str_eq, str_split,
    str_trim, string_of, trim, views,
};

verus! {

/// The whitespace-separated words of `s`, in order (std's `split_whitespace`).
pub open spec fn words(s: Seq<char>) -> Seq<Seq<char>>
    decreases s.len(),
{
    if s.len() == 0 {
        Seq::empty()
    } else {
        let w = words(s.drop_last());
        let c = s.last();
        if is_ws(c) {
            w
        } else if s.len() >= 2 && !is_ws(s[s.len() - 2]) && w.len() > 0 {
            w.drop_last().push(w.last().push(c))
        } else {
            w.push(seq![c])
        }
    }
}

/// Splits text into its whitespace-separated words.
pub fn split_words(s: &str) -> (r: Vec<String>)
    ensures
        views(r@) == words(s@),
{
    let cs = chars_of(s);
    let mut done: Vec<String> = Vec::new();
    let mut cur: Vec<char> = Vec::new();
    let mut in_word = false;
    let mut i: usize = 0;
    while i < cs.len()
        invariant
            i <= cs@.len(),
            cs@ == s@,
            in_word == (i > 0 && !is_ws(cs@[i - 1])),
            in_word ==> cur@.len() > 0,
            !in_word ==> cur@.len() == 0,
            words(cs@.take(i as int)) == if in_word {
                views(done@).push(cur@)
            } else {
                views(done@)
            },
        decreases cs.len() - i,
    {
        let c = cs[i];
        proof {
            assert(cs@.take(i + 1).drop_last() =~= cs@.take(i as int));
            assert(cs@.take(i + 1).last() == c);
            if i > 0 {
                assert(cs@.take(i + 1)[i - 1] == cs@[i - 1]);
            }
        }
        if char_is_ws(c) {
            if in_word {
                let w = string_of(cur.as_slice());
                let ghost before = views(done@);
                done.push(w);
                assert(views(done@) =~= before.push(cur@));
                cur = Vec::new();
            }
            in_word = false;
        } else {
            if in_word {
                let ghost prev = views(done@).push(cur@);
                cur.push(c);
                proof {
                    assert(prev.drop_last() =~= views(done@));
                    assert(prev.last() == cur@.drop_last());
                    assert(cur@ =~= cur@.drop_last().push(c));
                }
            } else {
                cur.push(c);
                proof {
                    assert(cur@ =~= seq![c]);
                }
            }
            in_word = true;
        }
        i = i + 1;
    }
    assert(cs@.take(cs@.len() as int) =~= cs@);
    if in_word {
        let w = string_of(cur.as_slice());
        let ghost before = views(done@);
        done.push(w);
        assert(views(done@) =~= before.push(cur@));
    }
    done
}

/// The authentication methods the wizard offers for a cluster type.
pub fn wizard_auth_choices(login_type: &str) -> (r: Vec<&'static str>)
    ensures
        r@.map_values(|s: &str| s@) == if login_type@ == "ocp"@ || login_type@ == "rancher"@ {
            seq!["token"@, "userpass"@]
        } else if login_type@ == "gke"@ {
            seq!["auto"@]
        } else {
            seq!["token"@, "userpass"@, "client-cert"@, "exec"@]
        },
{
    if str_eq(login_type, "ocp") || str_eq(login_type, "rancher") {
        let r = vec!["token", "userpass"];
        assert(r@.map_values(|s: &str| s@) =~= seq!["token"@, "userpass"@]);
        r
    } else if str_eq(login_type, "gke") {
        let r = vec!["auto"];
        assert(r@.map_values(|s: &str| s@) =~= seq!["auto"@]);
        r
    } else {
        let r = vec!["token", "userpass", "client-cert", "exec"];
        assert(r@.map_values(|s: &str| s@) =~= seq!["token"@, "userpass"@, "client-cert"@, "exec"@]);
        r
    }
}

/// Which of the wizard's optional questions are asked: a password-store
/// entry (for token or user/password), the vault (OpenShift or Rancher
/// with user/password), a dry run (plain Kubernetes).
pub fn wizard_questions(login_type: &str, auth: &str) -> (r: (bool, bool, bool))
    ensures
        r.0 == (auth@ == "token"@ || auth@ == "userpass"@),
        r.1 == ((login_type@ == "ocp"@ || login_type@ == "rancher"@) && auth@ == "userpass"@),
        r.2 == (login_type@ == "k8s"@),
{
    let pass = str_eq(auth, "token") || str_eq(auth, "userpass");
    let vault = (str_eq(login_type, "ocp") || str_eq(login_type, "rancher")) && str_eq(auth, "userpass");
    let dry = str_eq(login_type, "k8s");
    (pass, vault, dry)
}

/// The exec arguments typed in: its words, none when it is blank.
pub fn exec_args_from(text: &str) -> (r: Vec<String>)
    ensures
        views(r@) == if trim(text@).len() == 0 {
            Seq::empty()
        } else {
            words(text@)
        },
{
    let t = str_trim(text);
    if chars_of(t.as_str()).len() == 0 {
        let r: Vec<String> = Vec::new();
        assert(views(r@) =~= Seq::<Seq<char>>::empty());
        r
    } else {
        split_words(text)
    }
}

/// The pieces of a comma-separated list, each trimmed, empty ones dropped.
pub open spec fn comma_items(pieces: Seq<Seq<char>>) -> Seq<Seq<char>>
    decreases pieces.len(),
{
    if pieces.len() == 0 {
        Seq::empty()
    } else {
        let prev = comma_items(pieces.drop_last());
        let t = trim(pieces.last());
        if t.len() == 0 {
            prev
        } else {
            prev.push(t)
        }
    }
}

/// The exec environment entries typed in (`KEY=VALUE`, comma-separated):
/// each trimmed, empty ones dropped; none when it is blank.
pub fn exec_env_from(text: &str) -> (r: Vec<String>)
    ensures
        views(r@) == if trim(text@).len() == 0 {
            Seq::empty()
        } else {
            comma_items(split_seq(text@, ","@))
        },
{
    let t = str_trim(text);
    let mut out: Vec<String> = Vec::new();
    if chars_of(t.as_str()).len() == 0 {
        assert(views(out@) =~= Seq::<Seq<char>>::empty());
        return out;
    }
    proof {
        reveal_strlit(",");
    }
    let pieces = str_split(text, ",");
    let ghost pv = pieces@.map_values(|v: Vec<char>| v@);
    let mut i: usize = 0;
    while i < pieces.len()
        invariant
            i <= pieces@.len(),
            pv == pieces@.map_values(|v: Vec<char>| v@),
            views(out@) == comma_items(pv.take(i as int)),
        decreases pieces.len() - i,
    {
        assert(pv.take(i + 1).drop_last() =~= pv.take(i as int));
        assert(pv.take(i + 1).last() == pieces@[i as int]@);
        let p = string_of(pieces[i].as_slice());
        let tp = str_trim(p.as_str());
        if chars_of(tp.as_str()).len() > 0 {
            let ghost before = views(out@);
            out.push(tp);
            assert(views(out@) =~= before.push(trim(pieces@[i as int]@)));
        }
        i = i + 1;
    }
    assert(pv.take(pieces@.len() as int) =~= pv);
    out
}

/// The credential test timeout typed in, in seconds; 10 when it is not a
/// number.
pub fn timeout_from(text: &str) -> (r: u64)
    ensures
        r == match parsed_decimal(text@, u64::MAX as nat) {
            Some(v) => v as u64,
            None => 10,
        },
{
    let cs = chars_of(text);
    match parse_decimal(cs.as_slice(), u64::MAX) {
        Some(v) => v,
        None => 10,
    }
}

/// The path typed in for `oc`, trimmed; an error when it is blank.
pub fn oc_path_from(text: &str) -> (r: Result<String, K8pkError>)
    ensures
        trim(text@).len() > 0 ==> (r matches Ok(p) && p@ == trim(text@)),
        trim(text@).len() == 0 ==> (r matches Err(e) && e.is(
            ErrorKind::CommandFailed,
            "OpenShift CLI (oc) is required. Install it, set K8PK_OC, or run k8pk --oc /path/to/oc login --wizard"@,
        )),
{
    let t = str_trim(text);
    if chars_of(t.as_str()).len() == 0 {
        return Err(
            K8pkError::CommandFailed(
                owned("OpenShift CLI (oc) is required. Install it, set K8PK_OC, or run k8pk --oc /path/to/oc login --wizard"),
            ),
        );
    }
    Ok(t)
}

} // verus!
