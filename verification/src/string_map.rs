//! A map from text keys to text values, kept in a hash map keyed by text.
use vstd::hash_map::StringHashMap;
use vstd::prelude::*;

verus! {

/// What a read of `key` gives in `m`.
pub open spec fn text_read(m: Map<Seq<char>, Seq<char>>, key: Seq<char>) -> Option<Seq<char>> {
    if m.contains_key(key) {
        Some(m[key])
    } else {
        None
    }
}

/// The map. Its view maps each key's text to its value's text.
pub struct StringMap {
    m: StringHashMap<String>,
}

impl StringMap {
    pub closed spec fn view(&self) -> Map<Seq<char>, Seq<char>> {
        self.m@.map_values(|v: String| v@)
    }

    /// An empty map.
    pub fn new() -> (r: Self)
        ensures
            r.view() == Map::<Seq<char>, Seq<char>>::empty(),
    {
        let r = StringMap { m: StringHashMap::new() };
        assert(r.view() =~= Map::<Seq<char>, Seq<char>>::empty());
        r
    }

    /// The value of `key`, if any.
    pub fn get(&self, key: &str) -> (r: Option<&String>)
        ensures
            match r {
                Some(v) => text_read(self.view(), key@) == Some(v@),
                None => text_read(self.view(), key@) is None,
            },
    {
        self.m.get(key)
    }

    /// Binds `key` to `value`, returning the value it replaced.
    pub fn insert(&mut self, key: String, value: String) -> (r: Option<String>)
        ensures
            final(self).view() == old(self).view().insert(key@, value@),
            match r {
                Some(v) => text_read(old(self).view(), key@) == Some(v@),
                None => text_read(old(self).view(), key@) is None,
            },
    {
        let previous = match self.m.get(key.as_str()) {
            Some(v) => Some(v.clone()),
            None => None,
        };
        self.m.insert(key, value);
        assert(self.view() =~= old(self).view().insert(key@, value@));
        previous
    }

    /// Unbinds `key`, returning the key and value it held.
    pub fn remove_entry(&mut self, key: &str) -> (r: Option<(String, String)>)
        ensures
            final(self).view() == old(self).view().remove(key@),
            match r {
                Some((k, v)) => k@ == key@ && text_read(old(self).view(), key@) == Some(v@),
                None => text_read(old(self).view(), key@) is None,
            },
    {
        let found = match self.m.get(key) {
            Some(v) => Some(v.clone()),
            None => None,
        };
        self.m.remove(key);
        assert(self.view() =~= old(self).view().remove(key@));
        match found {
            Some(v) => Some((key.to_string(), v)),
            None => None,
        }
    }

    /// Unbinds `key`, returning the value it held.
    pub fn remove(&mut self, key: &str) -> (r: Option<String>)
        ensures
            final(self).view() == old(self).view().remove(key@),
            match r {
                Some(v) => text_read(old(self).view(), key@) == Some(v@),
                None => text_read(old(self).view(), key@) is None,
            },
    {
        match self.remove_entry(key) {
            Some((_, v)) => Some(v),
            None => None,
        }
    }
}

} // verus!
