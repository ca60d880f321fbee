//! The filters that decide which changes are reported. An empty or absent
//! allow-list lets everything through.

use vstd::prelude::*;
use crate::column::{lowercase, lowercase_of, text_eq};
use crate::lists::{key_items, pair_items, uid_items, KeyList, PairList, UidList};
use crate::diff::TagChange;
use crate::record::ObjectKind;

verus! {

/// Which object kinds are reported.
#[derive(Clone, Copy, Debug, PartialEq, Eq, Structural)]
pub struct KindFilter {
    pub node: bool,
    pub way: bool,
    pub relation: bool,
}

/// Whether a text holds a character.
pub fn text_contains(s: &str, c: char) -> (r: bool)
    ensures
        r == s@.contains(c),
{
    let n = s.unicode_len();
    let mut i: usize = 0;
    while i < n
        invariant
            n == s@.len(),
            i <= n,
            forall|j: int| 0 <= j < i ==> s@[j] != c,
        decreases n - i,
    {
        if s.get_char(i) == c {
            return true;
        }
        i = i + 1;
    }
    false
}

impl KindFilter {
    /// Every kind passes.
    pub fn all() -> (r: KindFilter)
        ensures
            r.node && r.way && r.relation,
    {
        KindFilter { node: true, way: true, relation: true }
    }

    /// Reads a set of kinds from letters: `n`, `w` and `r`, in either case.
    pub fn from_letters(letters: &str) -> (r: KindFilter)
        ensures
            r.node == lowercase_of(letters@).contains('n'),
            r.way == lowercase_of(letters@).contains('w'),
            r.relation == lowercase_of(letters@).contains('r'),
    {
        let lower = lowercase(letters);
        KindFilter {
            node: text_contains(lower.as_str(), 'n'),
            way: text_contains(lower.as_str(), 'w'),
            relation: text_contains(lower.as_str(), 'r'),
        }
    }

    pub open spec fn allows_spec(&self, k: ObjectKind) -> bool {
        match k {
            ObjectKind::Node => self.node,
            ObjectKind::Way => self.way,
            ObjectKind::Relation => self.relation,
        }
    }

    /// Whether objects of kind `k` are reported.
    pub fn allows(&self, k: ObjectKind) -> (r: bool)
        ensures
            r == self.allows_spec(k),
    {
        match k {
            ObjectKind::Node => self.node,
            ObjectKind::Way => self.way,
            ObjectKind::Relation => self.relation,
        }
    }
}

/// The four filters, applied together.
#[derive(Debug)]
pub struct FilterSet {
    /// Users whose changes are reported; `None` for all.
    pub uids: Option<UidList>,
    pub kinds: KindFilter,
    /// Tag keys whose changes are reported; empty for all.
    pub keys: KeyList,
    /// `(key, value)` pairs; a change is reported when its key is one of
    /// them and its old or new value is that pair's value. Empty for all.
    pub tags: PairList,
}

impl FilterSet {
    /// A filter set that lets everything through.
    pub fn pass_all() -> (r: FilterSet)
        ensures
            r.uids is None,
            r.kinds.node && r.kinds.way && r.kinds.relation,
            key_items(r.keys).len() == 0,
            pair_items(r.tags).len() == 0,
    {
        FilterSet { uids: None, kinds: KindFilter::all(), keys: KeyList::new(), tags: PairList::new() }
    }

    /// A record without a user id passes the user filter.
    pub open spec fn uid_passes_spec(&self, uid: Option<u32>) -> bool {
        match uid {
            Some(u) => match self.uids {
                Some(l) => uid_items(l).contains(u),
                None => true,
            },
            None => true,
        }
    }

    pub fn uid_passes(&self, uid: Option<u32>) -> (r: bool)
        ensures
            r == self.uid_passes_spec(uid),
    {
        let u = match uid {
            Some(u) => u,
            None => return true,
        };
        let l = match &self.uids {
            Some(l) => l,
            None => return true,
        };
        let n = l.len();
        let mut i: usize = 0;
        while i < n
            invariant
                n == uid_items(*l).len(),
                i <= n,
                self.uids == Some(*l),
                uid == Some(u),
                forall|j: int| 0 <= j < i ==> uid_items(*l)[j] != u,
            decreases n - i,
        {
            if l.get(i) == u {
                assert(uid_items(*l)[i as int] == u);
                return true;
            }
            i = i + 1;
        }
        false
    }

    pub open spec fn key_passes_spec(&self, key: Seq<char>) -> bool {
        key_items(self.keys).len() == 0 || exists|i: int|
            0 <= i < key_items(self.keys).len() && (#[trigger] key_items(self.keys)[i]) == key
    }

    pub fn key_passes(&self, key: &String) -> (r: bool)
        ensures
            r == self.key_passes_spec(key@),
    {
        let n = self.keys.len();
        if n == 0 {
            return true;
        }
        let mut i: usize = 0;
        while i < n
            invariant
                n == key_items(self.keys).len(),
                i <= n,
                forall|j: int| 0 <= j < i ==> (#[trigger] key_items(self.keys)[j]) != key@,
            decreases n - i,
        {
            if text_eq(self.keys.get(i), key.as_str()) {
                return true;
            }
            i = i + 1;
        }
        false
    }

    /// Whether the pair `(k, v)` matches a change of key `key`.
    pub open spec fn pair_matches(
        k: Seq<char>,
        v: Seq<char>,
        key: Seq<char>,
        old_value: Option<Seq<char>>,
        new_value: Option<Seq<char>>,
    ) -> bool {
        k == key && (old_value == Some(v) || new_value == Some(v))
    }

    pub open spec fn tag_passes_spec(&self, c: TagChange) -> bool {
        pair_items(self.tags).len() == 0 || exists|i: int|
            0 <= i < pair_items(self.tags).len() && Self::pair_matches(
                (#[trigger] pair_items(self.tags)[i]).0,
                pair_items(self.tags)[i].1,
                c.key@,
                c.old_chars(),
                c.new_chars(),
            )
    }

    pub fn tag_passes(&self, c: &TagChange) -> (r: bool)
        ensures
            r == self.tag_passes_spec(*c),
    {
        let n = self.tags.len();
        if n == 0 {
            return true;
        }
        let mut i: usize = 0;
        while i < n
            invariant
                n == pair_items(self.tags).len(),
                i <= n,
                forall|j: int|
                    0 <= j < i ==> !Self::pair_matches(
                        (#[trigger] pair_items(self.tags)[j]).0,
                        pair_items(self.tags)[j].1,
                        c.key@,
                        c.old_chars(),
                        c.new_chars(),
                    ),
            decreases n - i,
        {
            let (k, v) = self.tags.get(i);
            if text_eq(k, c.key.as_str()) {
                let old_hit = match &c.old_value {
                    Some(o) => text_eq(o.as_str(), v),
                    None => false,
                };
                let new_hit = match &c.new_value {
                    Some(o) => text_eq(o.as_str(), v),
                    None => false,
                };
                if old_hit || new_hit {
                    return true;
                }
            }
            i = i + 1;
        }
        false
    }

    pub open spec fn change_passes_spec(&self, c: TagChange) -> bool {
        self.key_passes_spec(c.key@) && self.tag_passes_spec(c)
    }

    /// Whether a change passes both tag-level filters.
    pub fn change_passes(&self, c: &TagChange) -> (r: bool)
        ensures
            r == self.change_passes_spec(*c),
    {
        self.key_passes(&c.key) && self.tag_passes(c)
    }
}

} // verus!
