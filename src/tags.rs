use vstd::prelude::*;
use crate::error::Error;
use crate::union::{resolve, ConflictPolicy};

verus! {

/// Key/value pairs as sequences of characters.
pub type TagsView = Seq<(Seq<char>, Seq<char>)>;

/// No key occurs twice.
pub open spec fn keys_unique(s: TagsView) -> bool {
    forall|i: int, j: int| 0 <= i < s.len() && 0 <= j < s.len() && s[i].0 == s[j].0 ==> i == j
}

/// The value stored under `k`.
pub open spec fn tag_lookup(s: TagsView, k: Seq<char>) -> Option<Seq<char>> {
    if exists|i: int| 0 <= i < s.len() && s[i].0 == k {
        let i = choose|i: int| 0 <= i < s.len() && s[i].0 == k;
        Some(s[i].1)
    } else {
        None
    }
}

/// Looking a key up in a prefix one entry longer.
pub proof fn lemma_lookup_prefix(s: TagsView, i: int, k: Seq<char>)
    requires
        keys_unique(s),
        0 <= i < s.len(),
    ensures
        tag_lookup(s.take(i + 1), k) == (if k == s[i].0 { Some(s[i].1) } else { tag_lookup(s.take(i), k) }),
        tag_lookup(s, s[i].0) == Some(s[i].1),
{
    let a = s.take(i);
    let b = s.take(i + 1);
    if k == s[i].0 {
        assert(b[i].0 == k);
        let j = choose|j: int| 0 <= j < b.len() && b[j].0 == k;
        assert(j == i);
    } else if exists|j: int| 0 <= j < a.len() && a[j].0 == k {
        let j = choose|j: int| 0 <= j < a.len() && a[j].0 == k;
        assert(b[j].0 == k);
        let j2 = choose|j2: int| 0 <= j2 < b.len() && b[j2].0 == k;
        assert(j2 == j);
    } else {
        assert forall|j: int| 0 <= j < b.len() implies b[j].0 != k by {
            if j < i {
                assert(a[j] == b[j]);
            }
        }
    }
    assert(s[i].0 == s[i].0);
    let j3 = choose|j3: int| 0 <= j3 < s.len() && s[j3].0 == s[i].0;
    assert(j3 == i);
}

/// String tags identifying a series: a mapping with unique keys.
#[derive(Debug)]
pub struct Tags {
    entries: Vec<(String, String)>,
}

impl View for Tags {
    type V = TagsView;

    closed spec fn view(&self) -> TagsView {
        self.entries@.map_values(|e: (String, String)| (e.0@, e.1@))
    }
}

impl Clone for Tags {
    fn clone(&self) -> (r: Self)
        ensures
            r@ == self@,
    {
        proof { use_type_invariant(self); }
        let mut entries: Vec<(String, String)> = Vec::new();
        let mut i: usize = 0;
        while i < self.entries.len()
            invariant
                i <= self.entries@.len(),
                entries@.len() == i,
                forall|k: int| 0 <= k < i ==> (#[trigger] entries@[k]).0@ == self@[k].0 && entries@[k].1@ == self@[k].1,
            decreases self.entries@.len() - i,
        {
            let k = self.entries[i].0.clone();
            let v = self.entries[i].1.clone();
            entries.push((k, v));
            i = i + 1;
        }
        let r = Tags { entries };
        proof { assert(r@ =~= self@); }
        r
    }
}

impl Tags {
    #[verifier::type_invariant]
    closed spec fn inv(self) -> bool {
        keys_unique(self@)
    }

    /// No tags.
    pub fn new() -> (r: Tags)
        ensures
            r@.len() == 0,
    {
        let t = Tags { entries: Vec::new() };
        proof { assert(t@ =~= Seq::empty()); }
        t
    }

    /// Number of tags.
    pub fn len(&self) -> (r: usize)
        ensures
            r == self@.len(),
    {
        self.entries.len()
    }

    /// Position of `key`, if present.
    fn position(&self, key: &String) -> (r: Option<usize>)
        ensures
            r matches Some(i) ==> i < self@.len() && self@[i as int].0 == key@,
            r is None ==> forall|i: int| 0 <= i < self@.len() ==> self@[i].0 != key@,
    {
        let mut i: usize = 0;
        while i < self.entries.len()
            invariant
                i <= self.entries.len(),
                self@.len() == self.entries.len(),
                forall|j: int| 0 <= j < i ==> self@[j].0 != key@,
            decreases self.entries.len() - i,
        {
            if self.entries[i].0 == *key {
                return Some(i);
            }
            i = i + 1;
        }
        None
    }

    /// The value stored under `key`.
    pub fn get(&self, key: &str) -> (r: Option<&String>)
        ensures
            r matches Some(v) ==> tag_lookup(self@, key@) == Some(v@),
            r is None ==> tag_lookup(self@, key@) is None,
    {
        proof { use_type_invariant(self); }
        let k = key.to_owned();
        match self.position(&k) {
            Some(i) => {
                proof {
                    let j = choose|j: int| 0 <= j < self@.len() && self@[j].0 == key@;
                    assert(self@[j].0 == self@[i as int].0);
                }
                Some(&self.entries[i].1)
            },
            None => None,
        }
    }

    /// Stores `value` under `key`, replacing any earlier value for it.
    pub fn insert(&mut self, key: String, value: String)
        ensures
            tag_lookup(final(self)@, key@) == Some(value@),
            forall|k: Seq<char>| k != key@ ==> tag_lookup(final(self)@, k) == tag_lookup(old(self)@, k),
    {
        proof { use_type_invariant(&*self); }
        let ghost before = self@;
        let pos = self.position(&key);
        let ghost kv = key@;
        let ghost vv = value@;
        let mut entries: Vec<(String, String)> = Vec::new();
        std::mem::swap(&mut self.entries, &mut entries);
        match pos {
            Some(i) => {
                entries.set(i, (key, value));
            },
            None => {
                entries.push((key, value));
            },
        }
        proof {
            let ev = entries@.map_values(|e: (String, String)| (e.0@, e.1@));
            if pos is Some {
                assert(ev =~= before.update(pos->0 as int, (kv, vv)));
            } else {
                assert(ev =~= before.push((kv, vv)));
            }
        }
        std::mem::swap(&mut self.entries, &mut entries);
        proof {
            let after = self@;
            assert(keys_unique(after));
            assert forall|k: Seq<char>| k != kv implies tag_lookup(after, k) == tag_lookup(before, k) by {
                if exists|j: int| 0 <= j < before.len() && before[j].0 == k {
                    let j = choose|j: int| 0 <= j < before.len() && before[j].0 == k;
                    assert(after[j].0 == k);
                    let j2 = choose|j2: int| 0 <= j2 < after.len() && after[j2].0 == k;
                    assert(j2 == j);
                } else {
                    assert forall|j: int| 0 <= j < after.len() implies after[j].0 != k by {
                        if j < before.len() {
                        }
                    }
                }
            }
            let j = choose|j: int| 0 <= j < after.len() && after[j].0 == kv;
            if pos is Some {
                assert(after[pos->0 as int].0 == kv);
            } else {
                assert(after[before.len() as int].0 == kv);
            }
        }
    }

    /// The key/value pairs, each key once, in no particular order.
    pub fn entries(&self) -> (r: &Vec<(String, String)>)
        ensures
            r@.map_values(|e: (String, String)| (e.0@, e.1@)) == self@,
    {
        &self.entries
    }
}

impl Tags {
    /// The tags of both sets. A key present in both with different values is
    /// settled by `policy`; under `Reject` that fails with `Conflict`.
    pub fn merge(&self, other: &Tags, policy: ConflictPolicy) -> (r: Result<Tags, Error>)
        ensures
            r is Ok <==> forall|k: Seq<char>| #[trigger] resolve(policy, tag_lookup(self@, k), tag_lookup(other@, k)) is Some,
            r matches Err(e) ==> e == Error::Conflict,
            r matches Ok(t) ==> forall|k: Seq<char>|
                #[trigger] resolve(policy, tag_lookup(self@, k), tag_lookup(other@, k)) == Some(tag_lookup(t@, k)),
    {
        proof {
            use_type_invariant(self);
            use_type_invariant(other);
        }
        let mut res = self.clone();
        let mut i: usize = 0;
        while i < other.entries.len()
            invariant
                i <= other@.len(),
                other@.len() == other.entries@.len(),
                keys_unique(other@),
                keys_unique(self@),
                forall|k: Seq<char>|
                    #[trigger] resolve(policy, tag_lookup(self@, k), tag_lookup(other@.take(i as int), k)) == Some(
                        tag_lookup(res@, k),
                    ),
            decreases other@.len() - i,
        {
            let key = &other.entries[i].0;
            let value = &other.entries[i].1;
            proof {
                assert forall|k: Seq<char>| #![auto] true implies tag_lookup(other@.take(i + 1), k) == (if k
                    == other@[i as int].0 {
                    Some(other@[i as int].1)
                } else {
                    tag_lookup(other@.take(i as int), k)
                }) by {
                    lemma_lookup_prefix(other@, i as int, k);
                }
                assert(tag_lookup(other@.take(i as int), key@) is None) by {
                    if exists|j: int| 0 <= j < i && other@.take(i as int)[j].0 == key@ {
                        let j = choose|j: int| 0 <= j < i && other@.take(i as int)[j].0 == key@;
                        assert(other@[j].0 == other@[i as int].0);
                    }
                }
            }
            let mine = self.position(key);
            let take = match mine {
                Some(p) => if self.entries[p].1 == *value {
                    true
                } else {
                    match policy {
                        ConflictPolicy::LeftWins => false,
                        ConflictPolicy::RightWins => true,
                        ConflictPolicy::Reject => {
                            proof {
                                lemma_lookup_prefix(other@, i as int, key@);
                                lemma_lookup_prefix(self@, p as int, key@);
                                assert(resolve(policy, tag_lookup(self@, key@), tag_lookup(other@, key@)) is None);
                            }
                            return Err(Error::Conflict);
                        },
                    }
                },
                None => true,
            };
            proof {
                if mine is Some {
                    let p = mine->0 as int;
                    lemma_lookup_prefix(self@, p, key@);
                    assert(tag_lookup(self@, key@) == Some(self@[p].1));
                } else {
                    assert(tag_lookup(self@, key@) is None);
                }
            }
            let ghost before = res@;
            if take {
                res.insert(key.clone(), value.clone());
            }
            proof {
                assert forall|k: Seq<char>|
                    #[trigger] resolve(policy, tag_lookup(self@, k), tag_lookup(other@.take(i + 1), k)) == Some(
                        tag_lookup(res@, k),
                    ) by {
                    lemma_lookup_prefix(other@, i as int, k);
                    assert(resolve(policy, tag_lookup(self@, k), tag_lookup(other@.take(i as int), k)) == Some(
                        tag_lookup(before, k),
                    ));
                }
            }
            i = i + 1;
        }
        proof {
            assert(other@.take(i as int) =~= other@);
        }
        Ok(res)
    }
}

/// Index of stored series by their tags. Series are looked up by tag in the
/// storage layer; in memory it holds nothing.
pub struct TagsTree {}

} // verus!
