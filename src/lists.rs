//! The filter allow-lists, held as smallvec's inline vectors (of smol_str's
//! strings for the texts). Each list type exposes only what the filters and
//! their callers need, each operation with what it does to the contents.

use vstd::prelude::*;
use smallvec::SmallVec;
use smol_str::SmolStr;
use crate::changeset::pairs_view;
use crate::config::strings_view;

verus! {

/// A list of user ids.
#[verifier::external_body]
#[derive(Debug)]
pub struct UidList {
    items: SmallVec<[u32; 1]>,
}

/// A list of tag keys.
#[verifier::external_body]
#[derive(Debug)]
pub struct KeyList {
    items: SmallVec<[SmolStr; 2]>,
}

/// A list of `(key, value)` pairs.
#[verifier::external_body]
#[derive(Debug)]
pub struct PairList {
    items: SmallVec<[(SmolStr, SmolStr); 2]>,
}

/// The user ids in a list, in order.
pub uninterp spec fn uid_items(v: UidList) -> Seq<u32>;

/// The texts of the keys in a list, in order.
pub uninterp spec fn key_items(v: KeyList) -> Seq<Seq<char>>;

/// The texts of the pairs in a list, in order.
pub uninterp spec fn pair_items(v: PairList) -> Seq<(Seq<char>, Seq<char>)>;

impl UidList {
    /// Relies on `SmallVec::new`: an empty list.
    #[verifier::external_body]
    pub(crate) fn new() -> (r: UidList)
        ensures
            uid_items(r).len() == 0,
    {
        UidList { items: SmallVec::new() }
    }

    /// Relies on `SmallVec::push`: the id is added at the end.
    #[verifier::external_body]
    pub(crate) fn push(&mut self, uid: u32)
        ensures
            uid_items(*final(self)) == uid_items(*old(self)).push(uid),
    {
        self.items.push(uid)
    }

    /// Relies on `SmallVec::len`: the number of ids.
    #[verifier::external_body]
    pub(crate) fn len(&self) -> (r: usize)
        ensures
            r == uid_items(*self).len(),
    {
        self.items.len()
    }

    /// Relies on indexing a `SmallVec`: the id at `i`.
    #[verifier::external_body]
    pub(crate) fn get(&self, i: usize) -> (r: u32)
        requires
            i < uid_items(*self).len(),
        ensures
            r == uid_items(*self)[i as int],
    {
        self.items[i]
    }
}

impl KeyList {
    /// Relies on `SmallVec::new`: an empty list.
    #[verifier::external_body]
    pub(crate) fn new() -> (r: KeyList)
        ensures
            key_items(r).len() == 0,
    {
        KeyList { items: SmallVec::new() }
    }

    /// Relies on `SmolStr::from` and `SmallVec::push`: the key's text is
    /// added at the end.
    #[verifier::external_body]
    pub(crate) fn push(&mut self, key: &str)
        ensures
            key_items(*final(self)) == key_items(*old(self)).push(key@),
    {
        self.items.push(SmolStr::from(key))
    }

    /// Relies on `SmallVec::len`: the number of keys.
    #[verifier::external_body]
    pub(crate) fn len(&self) -> (r: usize)
        ensures
            r == key_items(*self).len(),
    {
        self.items.len()
    }

    /// Relies on indexing a `SmallVec` and on `SmolStr::as_str`: the text of
    /// the key at `i`.
    #[verifier::external_body]
    pub(crate) fn get(&self, i: usize) -> (r: &str)
        requires
            i < key_items(*self).len(),
        ensures
            r@ == key_items(*self)[i as int],
    {
        self.items[i].as_str()
    }
}

impl PairList {
    /// Relies on `SmallVec::new`: an empty list.
    #[verifier::external_body]
    pub(crate) fn new() -> (r: PairList)
        ensures
            pair_items(r).len() == 0,
    {
        PairList { items: SmallVec::new() }
    }

    /// Relies on `SmolStr::from` and `SmallVec::push`: the pair's texts are
    /// added at the end.
    #[verifier::external_body]
    pub(crate) fn push(&mut self, key: &str, value: &str)
        ensures
            pair_items(*final(self)) == pair_items(*old(self)).push((key@, value@)),
    {
        self.items.push((SmolStr::from(key), SmolStr::from(value)))
    }

    /// Relies on `SmallVec::len`: the number of pairs.
    #[verifier::external_body]
    pub(crate) fn len(&self) -> (r: usize)
        ensures
            r == pair_items(*self).len(),
    {
        self.items.len()
    }

    /// Relies on indexing a `SmallVec` and on `SmolStr::as_str`: the texts of
    /// the pair at `i`.
    #[verifier::external_body]
    pub(crate) fn get(&self, i: usize) -> (r: (&str, &str))
        requires
            i < pair_items(*self).len(),
        ensures
            r.0@ == pair_items(*self)[i as int].0,
            r.1@ == pair_items(*self)[i as int].1,
    {
        (self.items[i].0.as_str(), self.items[i].1.as_str())
    }
}

impl UidList {
    /// A list holding the given ids, in order.
    pub fn from_ids(ids: &Vec<u32>) -> (r: UidList)
        ensures
            uid_items(r) == ids@,
    {
        let mut r = UidList::new();
        let n = ids.len();
        let mut i: usize = 0;
        while i < n
            invariant
                n == ids@.len(),
                i <= n,
                uid_items(r) == ids@.subrange(0, i as int),
            decreases n - i,
        {
            r.push(ids[i]);
            i = i + 1;
            assert(uid_items(r) =~= ids@.subrange(0, i as int));
        }
        assert(ids@.subrange(0, n as int) =~= ids@);
        r
    }
}

impl KeyList {
    /// A list holding the given keys, in order.
    pub fn from_texts(keys: &Vec<String>) -> (r: KeyList)
        ensures
            key_items(r) == strings_view(keys@),
    {
        let mut r = KeyList::new();
        let n = keys.len();
        let mut i: usize = 0;
        assert(strings_view(keys@.subrange(0, 0)) =~= key_items(r));
        while i < n
            invariant
                n == keys@.len(),
                i <= n,
                key_items(r) == strings_view(keys@.subrange(0, i as int)),
            decreases n - i,
        {
            r.push(keys[i].as_str());
            i = i + 1;
            assert(key_items(r) =~= strings_view(keys@.subrange(0, i as int)));
        }
        assert(keys@.subrange(0, n as int) =~= keys@);
        r
    }
}

impl PairList {
    /// A list holding the given pairs, in order.
    pub fn from_pairs(pairs: &Vec<(String, String)>) -> (r: PairList)
        ensures
            pair_items(r) == pairs_view(pairs@),
    {
        let mut r = PairList::new();
        let n = pairs.len();
        let mut i: usize = 0;
        assert(pairs_view(pairs@.subrange(0, 0)) =~= pair_items(r));
        while i < n
            invariant
                n == pairs@.len(),
                i <= n,
                pair_items(r) == pairs_view(pairs@.subrange(0, i as int)),
            decreases n - i,
        {
            r.push(pairs[i].0.as_str(), pairs[i].1.as_str());
            i = i + 1;
            assert(pair_items(r) =~= pairs_view(pairs@.subrange(0, i as int)));
        }
        assert(pairs@.subrange(0, n as int) =~= pairs@);
        r
    }
}

} // verus!
