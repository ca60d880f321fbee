//! Tag-level differences between two versions of an object.

use vstd::prelude::*;
use std::cmp::Ordering;
use crate::order::{compare_keys, key_lt, lemma_key_lt_irreflexive, lemma_key_lt_total, lemma_key_lt_transitive};

verus! {

/// A tag list as it comes from a record: `(key, value)` pairs.
pub type Tags = Vec<(String, String)>;

/// The value of `k` in a tag list: that of its first entry with key `k`.
pub open spec fn tag_value(tags: Seq<(String, String)>, k: Seq<char>) -> Option<Seq<char>>
    decreases tags.len(),
{
    if tags.len() == 0 {
        None
    } else if tags[0].0@ == k {
        Some(tags[0].1@)
    } else {
        tag_value(tags.drop_first(), k)
    }
}

pub open spec fn opt_chars(o: Option<String>) -> Option<Seq<char>> {
    match o {
        Some(s) => Some(s@),
        None => None,
    }
}

/// One tag whose value differs between two versions; a side where the tag is
/// absent holds `None`.
#[derive(Clone, Debug, PartialEq, Eq)]
pub struct TagChange {
    pub key: String,
    pub old_value: Option<String>,
    pub new_value: Option<String>,
}

impl TagChange {
    pub open spec fn old_chars(&self) -> Option<Seq<char>> {
        opt_chars(self.old_value)
    }

    pub open spec fn new_chars(&self) -> Option<Seq<char>> {
        opt_chars(self.new_value)
    }

    /// A real change: the two sides differ.
    pub open spec fn wf(&self) -> bool {
        self.old_chars() != self.new_chars()
    }
}

/// `ch` is the list of changes from tag list `old` to tag list `new`: exactly
/// the keys whose value differs, once each, in key order, with both values.
#[verifier::opaque]
pub open spec fn is_tag_diff(
    old: Seq<(String, String)>,
    new: Seq<(String, String)>,
    ch: Seq<TagChange>,
) -> bool {
    &&& forall|i: int, j: int|
        0 <= i < j < ch.len() ==> key_lt(#[trigger] ch[i].key@, #[trigger] ch[j].key@)
    &&& forall|i: int|
        0 <= i < ch.len() ==> {
            &&& (#[trigger] ch[i]).old_chars() == tag_value(old, ch[i].key@)
            &&& ch[i].new_chars() == tag_value(new, ch[i].key@)
            &&& ch[i].wf()
        }
    &&& forall|k: Seq<char>|
        #[trigger] tag_value(old, k) != #[trigger] tag_value(new, k) ==> exists|i: int|
            0 <= i < ch.len() && (#[trigger] ch[i].key@) == k
}

/// The keys of a tag list's entries.
pub open spec fn has_entry(tags: Seq<(String, String)>, k: Seq<char>) -> bool {
    exists|i: int| 0 <= i < tags.len() && (#[trigger] tags[i].0@) == k
}

pub proof fn lemma_tag_value_has_entry(tags: Seq<(String, String)>, k: Seq<char>)
    requires
        tag_value(tags, k) is Some,
    ensures
        has_entry(tags, k),
    decreases tags.len(),
{
    if tags[0].0@ != k {
        lemma_tag_value_has_entry(tags.drop_first(), k);
        let i = choose|i: int| 0 <= i < tags.len() - 1 && (#[trigger] tags.drop_first()[i].0@) == k;
        assert(tags[i + 1].0@ == k);
    }
}

/// Looks up the value of `key` in a tag list.
pub fn find_tag(tags: &Tags, key: &String) -> (r: Option<String>)
    ensures
        opt_chars(r) == tag_value(tags@, key@),
{
    let n = tags.len();
    let mut i: usize = 0;
    assert(tags@.subrange(0, n as int) =~= tags@);
    while i < n
        invariant
            n == tags@.len(),
            i <= n,
            tag_value(tags@.subrange(i as int, n as int), key@) == tag_value(tags@, key@),
        decreases n - i,
    {
        let ghost rest = tags@.subrange(i as int, n as int);
        assert(rest.drop_first() =~= tags@.subrange(i + 1, n as int));
        if tags[i].0 == *key {
            return Some(tags[i].1.clone());
        }
        i = i + 1;
    }
    None
}

pub open spec fn strictly_sorted(keys: Seq<String>) -> bool {
    forall|i: int, j: int| 0 <= i < j < keys.len() ==> key_lt(#[trigger] keys[i]@, #[trigger] keys[j]@)
}

pub open spec fn has_key(keys: Seq<String>, k: Seq<char>) -> bool {
    exists|i: int| 0 <= i < keys.len() && (#[trigger] keys[i]@) == k
}

/// Adds `k` to a strictly sorted key list, unless it is there already.
fn insert_key(keys: &mut Vec<String>, k: String)
    requires
        strictly_sorted(old(keys)@),
    ensures
        strictly_sorted(final(keys)@),
        has_key(final(keys)@, k@),
        forall|x: Seq<char>| has_key(old(keys)@, x) ==> has_key(final(keys)@, x),
{
    let n = keys.len();
    let mut i: usize = 0;
    while i < n && matches!(compare_keys(keys[i].as_str(), k.as_str()), Ordering::Less)
        invariant
            n == keys@.len(),
            i <= n,
            forall|j: int| 0 <= j < i ==> key_lt(#[trigger] keys@[j]@, k@),
        decreases n - i,
    {
        i = i + 1;
    }
    if i < n && matches!(compare_keys(keys[i].as_str(), k.as_str()), Ordering::Equal) {
        assert(keys@[i as int]@ == k@);
        return;
    }
    let ghost before = keys@;
    proof {
        if i < n {
            lemma_key_lt_total(before[i as int]@, k@);
            assert forall|j: int| i < j < n implies key_lt(k@, #[trigger] before[j]@) by {
                lemma_key_lt_transitive(k@, before[i as int]@, before[j]@);
            }
        }
    }
    keys.insert(i, k);
    assert(keys@ == before.insert(i as int, k));
    assert(keys@[i as int]@ == k@);
    assert forall|x: Seq<char>| has_key(before, x) implies has_key(keys@, x) by {
        let m = choose|m: int| 0 <= m < before.len() && (#[trigger] before[m]@) == x;
        if m < i {
            assert(keys@[m]@ == x);
        } else {
            assert(keys@[m + 1]@ == x);
        }
    }
    assert forall|a: int, b: int| 0 <= a < b < keys@.len() implies key_lt(
        #[trigger] keys@[a]@,
        #[trigger] keys@[b]@,
    ) by {
        if b < i {
        } else if b == i {
        } else if a < i {
            lemma_key_lt_transitive(keys@[a]@, k@, keys@[b]@);
        } else if a == i {
        } else {
        }
    }
}

/// Adds the keys of a tag list to a strictly sorted key list.
fn insert_keys_of(keys: &mut Vec<String>, tags: &Tags)
    requires
        strictly_sorted(old(keys)@),
    ensures
        strictly_sorted(final(keys)@),
        forall|k: Seq<char>| has_entry(tags@, k) ==> has_key(final(keys)@, k),
        forall|x: Seq<char>| has_key(old(keys)@, x) ==> has_key(final(keys)@, x),
{
    let ghost start = keys@;
    let n = tags.len();
    let mut i: usize = 0;
    while i < n
        invariant
            n == tags@.len(),
            i <= n,
            strictly_sorted(keys@),
            forall|j: int| 0 <= j < i ==> has_key(keys@, #[trigger] tags@[j].0@),
            forall|x: Seq<char>| has_key(start, x) ==> has_key(keys@, x),
        decreases n - i,
    {
        insert_key(keys, tags[i].0.clone());
        i = i + 1;
    }
    assert forall|k: Seq<char>| has_entry(tags@, k) implies has_key(keys@, k) by {
        let j = choose|j: int| 0 <= j < tags@.len() && (#[trigger] tags@[j].0@) == k;
        assert(has_key(keys@, tags@[j].0@));
    }
}

/// The changes from tag list `old` to tag list `new`, in key order.
pub fn tag_changes(old: &Tags, new: &Tags) -> (r: Vec<TagChange>)
    ensures
        is_tag_diff(old@, new@, r@),
{
    let mut keys: Vec<String> = Vec::new();
    insert_keys_of(&mut keys, new);
    insert_keys_of(&mut keys, old);
    let n = keys.len();
    let mut out: Vec<TagChange> = Vec::new();
    let mut i: usize = 0;
    while i < n
        invariant
            n == keys@.len(),
            i <= n,
            strictly_sorted(keys@),
            forall|a: int, b: int|
                0 <= a < b < out@.len() ==> key_lt(#[trigger] out@[a].key@, #[trigger] out@[b].key@),
            forall|a: int, m: int|
                0 <= a < out@.len() && i <= m < n ==> key_lt(#[trigger] out@[a].key@, #[trigger] keys@[m]@),
            forall|a: int|
                0 <= a < out@.len() ==> {
                    &&& (#[trigger] out@[a]).old_chars() == tag_value(old@, out@[a].key@)
                    &&& out@[a].new_chars() == tag_value(new@, out@[a].key@)
                    &&& out@[a].wf()
                },
            forall|m: int|
                0 <= m < i && tag_value(old@, (#[trigger] keys@[m])@) != tag_value(new@, keys@[m]@)
                    ==> exists|a: int| 0 <= a < out@.len() && (#[trigger] out@[a].key@) == keys@[m]@,
        decreases n - i,
    {
        let key = &keys[i];
        let o = find_tag(old, key);
        let v = find_tag(new, key);
        let differ = match (&o, &v) {
            (Some(x), Some(y)) => !(*x == *y),
            (None, None) => false,
            _ => true,
        };
        if differ {
            let ghost prev = out@;
            out.push(TagChange { key: key.clone(), old_value: o, new_value: v });
            assert(out@[prev.len() as int].key@ == keys@[i as int]@);
            assert forall|m: int|
                0 <= m <= i && tag_value(old@, (#[trigger] keys@[m])@) != tag_value(new@, keys@[m]@)
                implies exists|a: int| 0 <= a < out@.len() && (#[trigger] out@[a].key@) == keys@[m]@ by {
                if m < i {
                    let a = choose|a: int| 0 <= a < prev.len() && (#[trigger] prev[a].key@) == keys@[m]@;
                    assert(out@[a] == prev[a]);
                } else {
                    assert(out@[prev.len() as int].key@ == keys@[m]@);
                }
            }
        } else {
            assert(opt_chars(o) == opt_chars(v));
        }
        i = i + 1;
    }
    reveal(is_tag_diff);
    assert forall|k: Seq<char>|
        #[trigger] tag_value(old@, k) != #[trigger] tag_value(new@, k) implies exists|a: int|
            0 <= a < out@.len() && (#[trigger] out@[a].key@) == k by {
        if tag_value(old@, k) is Some {
            lemma_tag_value_has_entry(old@, k);
        } else {
            lemma_tag_value_has_entry(new@, k);
        }
        let m = choose|m: int| 0 <= m < keys@.len() && (#[trigger] keys@[m]@) == k;
        assert(tag_value(old@, keys@[m]@) != tag_value(new@, keys@[m]@));
    }
    out
}

} // verus!
