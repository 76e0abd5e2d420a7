//! The named parameters of a protocol line: a map from names to values in
//! which a later entry for a name replaces an earlier one.
use vstd::prelude::*;
use crate::strings::str_eq;

verus! {

/// The map that a list of entries stands for; later entries win.
pub open spec fn entries_map(s: Seq<(String, String)>) -> Map<Seq<char>, Seq<char>>
    decreases s.len(),
{
    if s.len() == 0 {
        Map::empty()
    } else {
        entries_map(s.drop_last()).insert(s.last().0@, s.last().1@)
    }
}

/// Named parameters, seen as a map from names to values.
#[derive(Debug)]
pub struct Params {
    entries: Vec<(String, String)>,
}

impl View for Params {
    type V = Map<Seq<char>, Seq<char>>;

    closed spec fn view(&self) -> Map<Seq<char>, Seq<char>> {
        entries_map(self.entries@)
    }
}

proof fn lemma_entries_map_suffix_free(s: Seq<(String, String)>, n: int, key: Seq<char>)
    requires
        0 <= n <= s.len(),
        forall|j: int| n <= j < s.len() ==> (#[trigger] s[j]).0@ != key,
    ensures
        entries_map(s).contains_key(key) == entries_map(s.subrange(0, n)).contains_key(key),
        entries_map(s).contains_key(key) ==> entries_map(s)[key] == entries_map(s.subrange(0, n))[key],
    decreases s.len() - n,
{
    if n < s.len() {
        let t = s.drop_last();
        assert(forall|j: int| n <= j < t.len() ==> t[j] == s[j]);
        lemma_entries_map_suffix_free(t, n, key);
        assert(t.subrange(0, n) =~= s.subrange(0, n));
        assert(s[s.len() - 1].0@ != key);
    } else {
        assert(s.subrange(0, n) =~= s);
    }
}

impl Params {
    /// No parameters.
    pub fn new() -> (r: Params)
        ensures
            r@ == Map::<Seq<char>, Seq<char>>::empty(),
    {
        Params { entries: Vec::new() }
    }

    /// Sets `key` to `value`, replacing any earlier value.
    pub fn insert(&mut self, key: String, value: String)
        ensures
            final(self)@ == old(self)@.insert(key@, value@),
    {
        let ghost before = self.entries@;
        self.entries.push((key, value));
        assert(self.entries@.drop_last() =~= before);
    }

    /// The value of `key`, if it has one.
    pub fn get(&self, key: &str) -> (r: Option<&String>)
        ensures
            match r {
                Some(v) => self@.contains_key(key@) && v@ == self@[key@],
                None => !self@.contains_key(key@),
            },
    {
        let mut i = self.entries.len();
        while i > 0
            invariant
                i <= self.entries@.len(),
                forall|j: int| i <= j < self.entries@.len() ==> (#[trigger] self.entries@[j]).0@ != key@,
            decreases i,
        {
            let e = &self.entries[i - 1];
            if str_eq(e.0.as_str(), key) {
                proof {
                    let s = self.entries@;
                    lemma_entries_map_suffix_free(s, i as int, key@);
                    assert(s.subrange(0, i as int).drop_last() =~= s.subrange(0, i - 1));
                }
                return Some(&e.1);
            }
            i = i - 1;
        }
        proof {
            lemma_entries_map_suffix_free(self.entries@, 0, key@);
        }
        None
    }

    /// The value of `key`, or the empty string where it has none.
    pub fn get_or_empty(&self, key: &str) -> (r: String)
        ensures
            r@ == (if self@.contains_key(key@) {
                self@[key@]
            } else {
                Seq::empty()
            }),
    {
        match self.get(key) {
            Some(v) => v.clone(),
            None => String::new(),
        }
    }

    /// Takes `key` out, giving back its value if it had one.
    pub fn remove(&mut self, key: &str) -> (r: Option<String>)
        ensures
            final(self)@ == old(self)@.remove(key@),
            match r {
                Some(v) => old(self)@.contains_key(key@) && v@ == old(self)@[key@],
                None => !old(self)@.contains_key(key@),
            },
    {
        let ghost s = self.entries@;
        let mut kept: Vec<(String, String)> = Vec::new();
        let mut found: Option<String> = None;
        let n = self.entries.len();
        for i in 0..n
            invariant
                n == s.len(),
                self.entries@ == s,
                entries_map(kept@) == entries_map(s.subrange(0, i as int)).remove(key@),
                match found {
                    Some(v) => entries_map(s.subrange(0, i as int)).contains_key(key@) && v@
                        == entries_map(s.subrange(0, i as int))[key@],
                    None => !entries_map(s.subrange(0, i as int)).contains_key(key@),
                },
        {
            let e = &self.entries[i];
            let ghost pre = s.subrange(0, i as int);
            assert(s.subrange(0, i + 1).drop_last() =~= pre);
            if str_eq(e.0.as_str(), key) {
                found = Some(e.1.clone());
                assert(entries_map(kept@) =~= entries_map(s.subrange(0, i + 1)).remove(key@));
            } else {
                let ghost before = kept@;
                kept.push((e.0.clone(), e.1.clone()));
                assert(kept@.drop_last() =~= before);
                assert(entries_map(kept@) =~= entries_map(s.subrange(0, i + 1)).remove(key@));
            }
        }
        assert(s.subrange(0, n as int) =~= s);
        self.entries = kept;
        found
    }
}

} // verus!
