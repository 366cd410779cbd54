//! An ordered map from attribute names to values.
use vstd::prelude::*;
use vstd::string::*;
use crate::text::str_eq;

verus! {

/// The value that `entries` gives to `key`: the last entry with that name wins.
pub open spec fn lookup(entries: Seq<(Seq<char>, Seq<char>)>, key: Seq<char>) -> Option<Seq<char>>
    decreases entries.len(),
{
    if entries.len() == 0 {
        None
    } else if entries.last().0 == key {
        Some(entries.last().1)
    } else {
        lookup(entries.drop_last(), key)
    }
}

/// No two pairs share a name.
pub open spec fn names_unique(s: Seq<(Seq<char>, Seq<char>)>) -> bool {
    forall|i: int, j: int| 0 <= i < j < s.len() ==> s[i].0 != s[j].0
}

/// The plain view of a list of name/value string pairs.
pub open spec fn pairs_view(v: Seq<(String, String)>) -> Seq<(Seq<char>, Seq<char>)> {
    v.map_values(|p: (String, String)| (p.0@, p.1@))
}

proof fn lemma_lookup_update(
    s: Seq<(Seq<char>, Seq<char>)>,
    i: int,
    k: Seq<char>,
    v: Seq<char>,
    k2: Seq<char>,
)
    requires
        0 <= i < s.len(),
        s[i].0 == k,
        forall|j: int| i < j < s.len() ==> s[j].0 != k,
    ensures
        lookup(s.update(i, (k, v)), k2) == if k2 == k {
            Some(v)
        } else {
            lookup(s, k2)
        },
    decreases s.len(),
{
    let u = s.update(i, (k, v));
    if i < s.len() - 1 {
        assert(u.drop_last() =~= s.drop_last().update(i, (k, v)));
        lemma_lookup_update(s.drop_last(), i, k, v, k2);
    } else {
        assert(u.drop_last() =~= s.drop_last());
    }
}

/// Attribute names mapped to values; setting a present name replaces its value in place,
/// a new name goes to the end, so the order of first insertion is kept.
#[derive(Debug)]
pub struct Attributes {
    entries: Vec<(String, String)>,
}

impl View for Attributes {
    type V = Seq<(Seq<char>, Seq<char>)>;

    closed spec fn view(&self) -> Seq<(Seq<char>, Seq<char>)> {
        pairs_view(self.entries@)
    }
}

impl Attributes {
    /// Each name appears once.
    #[verifier::type_invariant]
    pub open spec fn names_are_unique(&self) -> bool {
        names_unique(self@)
    }

    /// An empty mapping.
    pub fn new() -> (r: Attributes)
        ensures
            r@ == Seq::<(Seq<char>, Seq<char>)>::empty(),
            names_unique(r@),
    {
        let r = Attributes { entries: Vec::new() };
        assert(r@ =~= Seq::<(Seq<char>, Seq<char>)>::empty());
        r
    }

    /// A copy with the same entries.
    pub fn copied(&self) -> (r: Attributes)
        ensures
            r@ == self@,
            names_unique(r@),
    {
        proof {
            use_type_invariant(self);
        }
        let mut entries: Vec<(String, String)> = Vec::new();
        let n = self.entries.len();
        let mut i: usize = 0;
        while i < n
            invariant
                n == self.entries@.len(),
                i <= n,
                pairs_view(entries@) == self@.subrange(0, i as int),
            decreases n - i,
        {
            let e = &self.entries[i];
            let ghost before = entries@;
            entries.push((e.0.clone(), e.1.clone()));
            assert(pairs_view(entries@) =~= pairs_view(before).push((e.0@, e.1@)));
            assert(self@.subrange(0, i + 1) =~= self@.subrange(0, i as int).push(self@[i as int]));
            i = i + 1;
        }
        assert(self@.subrange(0, n as int) =~= self@);
        Attributes { entries }
    }

    /// Number of entries.
    pub fn len(&self) -> (r: usize)
        ensures
            r == self@.len(),
    {
        self.entries.len()
    }

    /// The entry at position `i`, in order of insertion.
    pub fn entry(&self, i: usize) -> (r: (&str, &str))
        requires
            i < self@.len(),
        ensures
            r.0@ == self@[i as int].0,
            r.1@ == self@[i as int].1,
    {
        let e = &self.entries[i];
        (e.0.as_str(), e.1.as_str())
    }

    /// Position of the last entry named `key`, if any.
    fn position(&self, key: &str) -> (r: Option<usize>)
        ensures
            r matches Some(i) ==> i < self@.len() && self@[i as int].0 == key@ && forall|j: int|
                i < j < self@.len() ==> self@[j].0 != key@,
            r is None ==> forall|j: int| 0 <= j < self@.len() ==> self@[j].0 != key@,
    {
        let mut i: usize = self.entries.len();
        while i > 0
            invariant
                i <= self@.len(),
                self@.len() == self.entries@.len(),
                forall|j: int| i <= j < self@.len() ==> self@[j].0 != key@,
            decreases i,
        {
            let e = &self.entries[i - 1];
            if str_eq(e.0.as_str(), key) {
                return Some(i - 1);
            }
            i = i - 1;
        }
        None
    }

    /// The value named `key`.
    pub fn get(&self, key: &str) -> (r: Option<String>)
        ensures
            r matches Some(v) ==> lookup(self@, key@) == Some(v@),
            r is None ==> lookup(self@, key@) is None,
    {
        match self.position(key) {
            Some(i) => {
                proof {
                    lemma_lookup_last(self@, i as int, key@);
                }
                Some(self.entries[i].1.clone())
            },
            None => {
                proof {
                    lemma_lookup_absent(self@, key@);
                }
                None
            },
        }
    }

    /// Gives `key` the value `value`.
    pub fn set(&mut self, key: &str, value: &str)
        ensures
            forall|k: Seq<char>|
                #![trigger lookup(final(self)@, k)]
                lookup(final(self)@, k) == if k == key@ {
                    Some(value@)
                } else {
                    lookup(old(self)@, k)
                },
            lookup(old(self)@, key@) is Some ==> final(self)@.len() == old(self)@.len(),
            lookup(old(self)@, key@) is None ==> final(self)@ == old(self)@.push((key@, value@)),
            names_unique(final(self)@),
    {
        proof {
            use_type_invariant(&*self);
        }
        let pos = self.position(key);
        let ghost s = self@;
        let entries = self.entries_with(pos, key, value);
        match pos {
            Some(i) => {
                proof {
                    assert forall|k: Seq<char>| #[trigger]
                        lookup(pairs_view(entries@), k) == if k == key@ {
                            Some(value@)
                        } else {
                            lookup(s, k)
                        } by {
                        lemma_lookup_update(s, i as int, key@, value@, k);
                    }
                    lemma_lookup_last(s, i as int, key@);
                    let t = pairs_view(entries@);
                    assert forall|a: int, b: int| 0 <= a < b < t.len() implies t[a].0 != t[b].0 by {
                        assert(t[a].0 == s[a].0 && t[b].0 == s[b].0);
                    }
                }
            },
            None => {
                proof {
                    let t = pairs_view(entries@);
                    assert(t.drop_last() =~= s);
                    lemma_lookup_absent(s, key@);
                    assert forall|a: int, b: int| 0 <= a < b < t.len() implies t[a].0 != t[b].0 by {
                        if b == s.len() {
                            assert(s[a].0 != key@);
                        }
                    }
                }
            },
        }
        *self = Attributes { entries };
    }

    /// The entries with `key` given `value`: in place at `pos`, or at the end.
    fn entries_with(&self, pos: Option<usize>, key: &str, value: &str) -> (r: Vec<(String, String)>)
        requires
            pos matches Some(i) ==> i < self@.len(),
        ensures
            pairs_view(r@) == match pos {
                Some(i) => self@.update(i as int, (key@, value@)),
                None => self@.push((key@, value@)),
            },
    {
        let ghost target = match pos {
            Some(i) => self@.update(i as int, (key@, value@)),
            None => self@,
        };
        let mut entries: Vec<(String, String)> = Vec::new();
        let n = self.entries.len();
        let mut j: usize = 0;
        while j < n
            invariant
                n == self.entries@.len(),
                j <= n,
                target.len() == n,
                pos matches Some(i) ==> i < n,
                target == match pos {
                    Some(i) => self@.update(i as int, (key@, value@)),
                    None => self@,
                },
                pairs_view(entries@) == target.subrange(0, j as int),
            decreases n - j,
        {
            let ghost before = entries@;
            let here = match pos {
                Some(i) => i == j,
                None => false,
            };
            if here {
                entries.push((String::from_str(key), String::from_str(value)));
                assert(pairs_view(entries@) =~= pairs_view(before).push((key@, value@)));
                assert(target[j as int] == (key@, value@));
            } else {
                let e = &self.entries[j];
                entries.push((e.0.clone(), e.1.clone()));
                assert(pairs_view(entries@) =~= pairs_view(before).push((e.0@, e.1@)));
                assert(target[j as int] == self@[j as int]);
            }
            assert(target.subrange(0, j + 1) =~= target.subrange(0, j as int).push(target[j as int]));
            assert(pairs_view(entries@) =~= target.subrange(0, j + 1));
            j = j + 1;
        }
        if let None = pos {
            entries.push((String::from_str(key), String::from_str(value)));
        }
        proof {
            assert(target.subrange(0, n as int) =~= target);
            if pos is None {
                assert(pairs_view(entries@) =~= self@.push((key@, value@)));
            }
        }
        entries
    }
}

proof fn lemma_lookup_last(s: Seq<(Seq<char>, Seq<char>)>, i: int, k: Seq<char>)
    requires
        0 <= i < s.len(),
        s[i].0 == k,
        forall|j: int| i < j < s.len() ==> s[j].0 != k,
    ensures
        lookup(s, k) == Some(s[i].1),
    decreases s.len(),
{
    if i < s.len() - 1 {
        lemma_lookup_last(s.drop_last(), i, k);
    }
}

pub proof fn lemma_lookup_absent(s: Seq<(Seq<char>, Seq<char>)>, k: Seq<char>)
    requires
        forall|j: int| 0 <= j < s.len() ==> s[j].0 != k,
    ensures
        lookup(s, k) is None,
    decreases s.len(),
{
    if s.len() > 0 {
        lemma_lookup_absent(s.drop_last(), k);
    }
}

} // verus!
