//! A YAML value as a plain data type, with the mapping operations that the
//! kubeconfig logic uses (insertion-ordered maps with unique keys).

use vstd::prelude::*;
use crate::text::{chars_eq, chars_of};

verus! {

/// A YAML value. Numbers keep their textual form.
#[derive(Debug)]
pub enum YamlValue {
    Null,
    Bool(bool),
    Number(String),
    Str(String),
    Sequence(Vec<YamlValue>),
    Mapping(Vec<YamlEntry>),
    Tagged(String, Box<YamlValue>),
}

/// One key/value pair of a YAML mapping.
#[derive(Debug)]
pub struct YamlEntry {
    pub key: YamlValue,
    pub value: YamlValue,
}

/// The mathematical content of a YAML value.
pub enum YamlView {
    Null,
    Bool(bool),
    Number(Seq<char>),
    Str(Seq<char>),
    Sequence(Seq<YamlView>),
    Mapping(Seq<(YamlView, YamlView)>),
    Tagged(Seq<char>, Box<YamlView>),
}

/// The content of a YAML value.
pub open spec fn yaml_view(v: YamlValue) -> YamlView
    decreases v,
{
    match v {
        YamlValue::Null => YamlView::Null,
        YamlValue::Bool(b) => YamlView::Bool(b),
        YamlValue::Number(n) => YamlView::Number(n@),
        YamlValue::Str(s) => YamlView::Str(s@),
        YamlValue::Sequence(items) => YamlView::Sequence(
            Seq::new(
                items@.len(),
                |i: int|
                    if 0 <= i < items@.len() {
                        yaml_view(items@[i])
                    } else {
                        YamlView::Null
                    },
            ),
        ),
        YamlValue::Mapping(es) => YamlView::Mapping(
            Seq::new(
                es@.len(),
                |i: int|
                    if 0 <= i < es@.len() {
                        (yaml_view(es@[i].key), yaml_view(es@[i].value))
                    } else {
                        (YamlView::Null, YamlView::Null)
                    },
            ),
        ),
        YamlValue::Tagged(t, b) => YamlView::Tagged(t@, Box::new(yaml_view(*b))),
    }
}

impl View for YamlValue {
    type V = YamlView;

    open spec fn view(&self) -> YamlView {
        yaml_view(*self)
    }
}

/// The content of each entry of a mapping.
pub open spec fn entries_view(m: Seq<YamlEntry>) -> Seq<(YamlView, YamlView)> {
    Seq::new(m.len(), |i: int| (m[i].key@, m[i].value@))
}

/// The key is the string `k`.
pub open spec fn key_is(key: YamlView, k: Seq<char>) -> bool {
    key == YamlView::Str(k)
}

/// The first position in `m` whose key is the string `k`.
pub open spec fn entry_index(m: Seq<(YamlView, YamlView)>, k: Seq<char>) -> Option<int>
    decreases m.len(),
{
    if m.len() == 0 {
        None
    } else {
        match entry_index(m.drop_last(), k) {
            Some(i) => Some(i),
            None => if key_is(m.last().0, k) {
                Some(m.len() - 1)
            } else {
                None
            },
        }
    }
}

/// The value stored under the string key `k`.
pub open spec fn lookup(m: Seq<(YamlView, YamlView)>, k: Seq<char>) -> Option<YamlView> {
    match entry_index(m, k) {
        Some(i) => Some(m[i].1),
        None => None,
    }
}

/// The mapping after inserting `v` under the string key `k`: an existing
/// entry keeps its place and takes the new value; otherwise the entry goes last.
pub open spec fn insert_entry(m: Seq<(YamlView, YamlView)>, k: Seq<char>, v: YamlView) -> Seq<(YamlView, YamlView)> {
    match entry_index(m, k) {
        Some(i) => m.update(i, (m[i].0, v)),
        None => m.push((YamlView::Str(k), v)),
    }
}

/// The mapping after removing the string key `k` by swapping in the last entry.
pub open spec fn swap_remove_entry(m: Seq<(YamlView, YamlView)>, k: Seq<char>) -> Seq<(YamlView, YamlView)> {
    match entry_index(m, k) {
        Some(i) => m.update(i, m.last()).drop_last(),
        None => m,
    }
}

/// What `entry_index` returns.
pub proof fn lemma_entry_index(m: Seq<(YamlView, YamlView)>, k: Seq<char>)
    ensures
        match entry_index(m, k) {
            Some(i) => 0 <= i < m.len() && key_is(m[i].0, k) && forall|j: int|
                0 <= j < i ==> !key_is(#[trigger] m[j].0, k),
            None => forall|j: int| 0 <= j < m.len() ==> !key_is(#[trigger] m[j].0, k),
        },
    decreases m.len(),
{
    if m.len() > 0 {
        lemma_entry_index(m.drop_last(), k);
        let d = m.drop_last();
        assert forall|j: int| 0 <= j < d.len() implies d[j] == m[j] by {}
    }
}

/// A position with key `k` and none before is what `entry_index` returns.
pub proof fn lemma_entry_index_exact(m: Seq<(YamlView, YamlView)>, k: Seq<char>, i: int)
    requires
        0 <= i < m.len(),
        key_is(m[i].0, k),
        forall|j: int| 0 <= j < i ==> !key_is(#[trigger] m[j].0, k),
    ensures
        entry_index(m, k) == Some(i),
{
    lemma_entry_index(m, k);
    match entry_index(m, k) {
        Some(j) => {
            if j < i {
                assert(!key_is(m[j].0, k));
            }
            if j > i {
                assert(!key_is(m[i].0, k));
            }
        },
        None => {
            assert(!key_is(m[i].0, k));
        },
    }
}

/// The content of a mapping value is the content of its entries.
pub proof fn lemma_mapping_view(es: Vec<YamlEntry>)
    ensures
        yaml_view(YamlValue::Mapping(es)) == YamlView::Mapping(entries_view(es@)),
{
    if let YamlView::Mapping(m) = yaml_view(YamlValue::Mapping(es)) {
        assert(m =~= entries_view(es@));
    }
}

/// The content of a sequence value is the content of its items.
pub proof fn lemma_sequence_view(items: Vec<YamlValue>)
    ensures
        yaml_view(YamlValue::Sequence(items)) == YamlView::Sequence(items@.map_values(|v: YamlValue| v@)),
{
    if let YamlView::Sequence(m) = yaml_view(YamlValue::Sequence(items)) {
        assert(m =~= items@.map_values(|v: YamlValue| v@));
    }
}

/// An entry whose key and value are strings.
pub fn str_entry(k: &str, v: String) -> (r: YamlEntry)
    ensures
        r.key@ == YamlView::Str(k@),
        r.value@ == YamlView::Str(v@),
{
    YamlEntry { key: YamlValue::Str(k.to_owned()), value: YamlValue::Str(v) }
}

/// An empty mapping value.
pub fn empty_mapping() -> (r: YamlValue)
    ensures
        r@ == YamlView::Mapping(Seq::empty()),
{
    let es: Vec<YamlEntry> = Vec::new();
    proof {
        lemma_mapping_view(es);
        assert(entries_view(es@) =~= Seq::<(YamlView, YamlView)>::empty());
    }
    YamlValue::Mapping(es)
}

/// Whether a key is the string `k`.
pub fn key_matches(key: &YamlValue, k: &[char]) -> (r: bool)
    ensures
        r == key_is(key@, k@),
{
    match key {
        YamlValue::Str(s) => {
            let v = chars_of(s.as_str());
            chars_eq(&v, k)
        },
        _ => false,
    }
}

/// The position of the string key `k` in `m`.
pub fn find_entry(m: &Vec<YamlEntry>, k: &str) -> (r: Option<usize>)
    ensures
        match r {
            Some(i) => i < m@.len() && entry_index(entries_view(m@), k@) == Some(i as int),
            None => entry_index(entries_view(m@), k@) is None,
        },
{
    let ghost mv = entries_view(m@);
    let kv = chars_of(k);
    let mut i: usize = 0;
    while i < m.len()
        invariant
            i <= m.len(),
            kv@ == k@,
            mv == entries_view(m@),
            forall|j: int| 0 <= j < i ==> !key_is(#[trigger] mv[j].0, k@),
        decreases m.len() - i,
    {
        if key_matches(&m[i].key, &kv) {
            proof {
                lemma_entry_index_exact(mv, k@, i as int);
            }
            return Some(i);
        }
        i = i + 1;
    }
    proof {
        lemma_entry_index(mv, k@);
    }
    None
}

/// The value under the string key `k` (serde_yaml_ng's `Mapping::get`).
pub fn map_get<'a>(m: &'a Vec<YamlEntry>, k: &str) -> (r: Option<&'a YamlValue>)
    ensures
        match r {
            Some(v) => lookup(entries_view(m@), k@) == Some(v@),
            None => lookup(entries_view(m@), k@) is None,
        },
{
    match find_entry(m, k) {
        Some(i) => Some(&m[i].value),
        None => None,
    }
}

/// Inserts `v` under the string key `k` (serde_yaml_ng's `Mapping::insert`).
pub fn map_insert(m: &mut Vec<YamlEntry>, k: String, v: YamlValue)
    ensures
        entries_view(final(m)@) == insert_entry(entries_view(old(m)@), k@, v@),
{
    let ghost vv = v@;
    match find_entry(m, k.as_str()) {
        Some(i) => {
            let old_key = copy_value(&m[i].key);
            m.set(i, YamlEntry { key: old_key, value: v });
            assert(entries_view(m@) =~= entries_view(old(m)@).update(
                i as int,
                (entries_view(old(m)@)[i as int].0, vv),
            ));
        },
        None => {
            let ghost kk = k@;
            m.push(YamlEntry { key: YamlValue::Str(k), value: v });
            assert(entries_view(m@) =~= entries_view(old(m)@).push((YamlView::Str(kk), vv)));
        },
    }
}

/// Removes the string key `k` (serde_yaml_ng's `Mapping::remove`, a swap-remove).
pub fn map_swap_remove(m: &mut Vec<YamlEntry>, k: &str) -> (r: Option<YamlValue>)
    ensures
        entries_view(final(m)@) == swap_remove_entry(entries_view(old(m)@), k@),
        match r {
            Some(x) => lookup(entries_view(old(m)@), k@) == Some(x@),
            None => lookup(entries_view(old(m)@), k@) is None,
        },
{
    match find_entry(m, k) {
        Some(i) => {
            let e = m.swap_remove(i);
            proof {
                let ov = entries_view(old(m)@);
                assert(entries_view(m@) =~= ov.update(i as int, ov.last()).drop_last());
            }
            Some(e.value)
        },
        None => None,
    }
}

/// A copy of a YAML value.
pub fn copy_value(v: &YamlValue) -> (r: YamlValue)
    ensures
        r@ == v@,
    decreases *v,
{
    match v {
        YamlValue::Null => YamlValue::Null,
        YamlValue::Bool(b) => YamlValue::Bool(*b),
        YamlValue::Number(n) => YamlValue::Number(n.clone()),
        YamlValue::Str(s) => YamlValue::Str(s.clone()),
        YamlValue::Sequence(items) => {
            let mut out: Vec<YamlValue> = Vec::new();
            let mut i: usize = 0;
            assert(decreases_to!(*v => *items));
            while i < items.len()
                invariant
                    decreases_to!(*v => *items),
                    i <= items.len(),
                    out@.len() == i,
                    forall|j: int| 0 <= j < i ==> (#[trigger] out@[j])@ == items@[j]@,
                decreases items.len() - i,
            {
                assert(decreases_to!(*items => items@));
                assert(decreases_to!(items@ => items@[i as int]));
                out.push(copy_value(&items[i]));
                i = i + 1;
            }
            let r = YamlValue::Sequence(out);
            assert(r@ == v@) by {
                assert(yaml_view(r) =~= yaml_view(*v)) by {
                    if let YamlView::Sequence(a) = yaml_view(r) {
                        if let YamlView::Sequence(b) = yaml_view(*v) {
                            assert(a =~= b);
                        }
                    }
                }
            }
            r
        },
        YamlValue::Mapping(entries) => {
            let mut out: Vec<YamlEntry> = Vec::new();
            let mut i: usize = 0;
            assert(decreases_to!(*v => *entries));
            while i < entries.len()
                invariant
                    decreases_to!(*v => *entries),
                    i <= entries.len(),
                    out@.len() == i,
                    forall|j: int| 0 <= j < i ==> (#[trigger] out@[j]).key@ == entries@[j].key@
                        && out@[j].value@ == entries@[j].value@,
                decreases entries.len() - i,
            {
                let ghost e = entries@[i as int];
                assert(decreases_to!(*entries => entries@));
                assert(decreases_to!(entries@ => e));
                assert(decreases_to!(e => e.key));
                assert(decreases_to!(e => e.value));
                let key = copy_value(&entries[i].key);
                let value = copy_value(&entries[i].value);
                out.push(YamlEntry { key, value });
                i = i + 1;
            }
            let r = YamlValue::Mapping(out);
            assert(r@ == v@) by {
                if let YamlView::Mapping(a) = yaml_view(r) {
                    if let YamlView::Mapping(b) = yaml_view(*v) {
                        assert(a =~= b);
                    }
                }
            }
            r
        },
        YamlValue::Tagged(t, inner) => YamlValue::Tagged(t.clone(), Box::new(copy_value(inner))),
    }
}

} // verus!
