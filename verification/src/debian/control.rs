//! The fields of a package's control file.

use vstd::prelude::*;
use crate::textmap::TextMap;

verus! {

/// The fields of a control file: field names with their values, each name
/// once.
pub struct ControlMap {
    fields: TextMap<String>,
}

/// The map that a list of fields stands for; of two fields of one name the
/// later one counts.
pub open spec fn fields_map(pairs: Seq<(Seq<char>, Seq<char>)>) -> Map<Seq<char>, Seq<char>>
    decreases pairs.len(),
{
    if pairs.len() == 0 {
        Map::empty()
    } else {
        fields_map(pairs.drop_last()).insert(pairs.last().0, pairs.last().1)
    }
}

/// The names and values of a list of owned fields.
pub open spec fn pair_views(pairs: Seq<(String, String)>) -> Seq<(Seq<char>, Seq<char>)> {
    pairs.map_values(|p: (String, String)| (p.0@, p.1@))
}

impl ControlMap {
    /// The fields as a map from name to value.
    pub closed spec fn view(&self) -> Map<Seq<char>, Seq<char>> {
        Map::new(|k: Seq<char>| self.fields@.contains_key(k), |k: Seq<char>| self.fields@[k]@)
    }

    /// A control file without fields.
    pub fn new() -> (m: ControlMap)
        ensures
            m@ == Map::<Seq<char>, Seq<char>>::empty(),
    {
        let m = ControlMap { fields: TextMap::new() };
        assert(m@ =~= Map::<Seq<char>, Seq<char>>::empty());
        m
    }

    /// The number of fields.
    pub fn len(&self) -> (n: usize)
        ensures
            n == self@.dom().len(),
            self@.dom().finite(),
    {
        let n = self.fields.len();
        assert(self@.dom() =~= self.fields@.dom());
        n
    }

    /// Whether the field `key` is present.
    pub fn contains_key(&self, key: &str) -> (r: bool)
        ensures
            r == self@.contains_key(key@),
    {
        self.fields.contains_key(key)
    }

    /// The value of the field `key`.
    pub fn get(&self, key: &str) -> (r: Option<&String>)
        ensures
            match r {
                Some(v) => self@.contains_key(key@) && self@[key@] == v@,
                None => !self@.contains_key(key@),
            },
    {
        self.fields.get(key)
    }

    /// Sets the field `key` to `value`, whether or not it was present.
    pub fn insert(&mut self, key: String, value: String)
        ensures
            final(self)@ == old(self)@.insert(key@, value@),
    {
        self.fields.insert(key, value);
        assert(self@ =~= old(self)@.insert(key@, value@));
    }

    /// Takes the field `key` out, and returns its value.
    pub fn remove(&mut self, key: &str) -> (r: Option<String>)
        ensures
            final(self)@ == old(self)@.remove(key@),
            match r {
                Some(v) => old(self)@.contains_key(key@) && old(self)@[key@] == v@,
                None => !old(self)@.contains_key(key@),
            },
    {
        let r = self.fields.remove(key);
        assert(self@ =~= old(self)@.remove(key@));
        r
    }

    /// The control file that holds the given fields; of two fields of one
    /// name the later one counts.
    pub fn from_pairs(pairs: Vec<(String, String)>) -> (m: ControlMap)
        ensures
            m@ == fields_map(pair_views(pairs@)),
    {
        let mut m = ControlMap::new();
        let mut pairs = pairs;
        let ghost all = pairs@;
        let mut rest: Vec<(String, String)> = Vec::new();
        while pairs.len() > 0
            invariant
                all == pairs@ + rest@.reverse(),
            decreases pairs.len(),
        {
            let p = pairs.pop().unwrap();
            rest.push(p);
            assert(all =~= pairs@ + rest@.reverse());
        }
        assert(rest@.reverse() =~= all);
        let ghost mut done: Seq<(String, String)> = Seq::empty();
        while rest.len() > 0
            invariant
                all == done + rest@.reverse(),
                m@ == fields_map(pair_views(done)),
            decreases rest.len(),
        {
            let p = rest.pop().unwrap();
            proof {
                let next = done.push(p);
                assert(pair_views(next).drop_last() =~= pair_views(done));
                assert(pair_views(next).last() == (p.0@, p.1@));
                assert(all =~= next + rest@.reverse());
                done = next;
            }
            m.insert(p.0, p.1);
        }
        assert(done =~= all);
        m
    }
}

} // verus!
