//! A cache that gives each string one value for good: once a string has a
//! value (its C string), later requests for the string get that same value,
//! and no value is ever replaced or dropped while the cache lives.

use vstd::prelude::*;

verus! {

/// The map that a sequence of entries denotes; a later entry for a key
/// stands in place of an earlier one.
pub open spec fn entries_map<V>(s: Seq<(String, V)>) -> Map<Seq<char>, V>
    decreases s.len(),
{
    if s.len() == 0 {
        Map::empty()
    } else {
        entries_map(s.drop_last()).insert(s.last().0@, s.last().1)
    }
}

/// The keys of the entries, in order.
pub open spec fn entry_keys<V>(s: Seq<(String, V)>) -> Seq<Seq<char>> {
    s.map_values(|e: (String, V)| e.0@)
}

/// The cache after a request to add `value` for `key`: unchanged where the
/// key has a value already, else extended with it.
pub open spec fn cache_after_insert<V>(m: Map<Seq<char>, V>, key: Seq<char>, value: V) -> Map<
    Seq<char>,
    V,
> {
    if m.contains_key(key) {
        m
    } else {
        m.insert(key, value)
    }
}

proof fn entries_map_lookup<V>(s: Seq<(String, V)>, i: int)
    requires
        entry_keys(s).no_duplicates(),
        0 <= i < s.len(),
    ensures
        entries_map(s).contains_key(s[i].0@),
        entries_map(s)[s[i].0@] == s[i].1,
    decreases s.len(),
{
    if i < s.len() - 1 {
        assert(entry_keys(s)[i] != entry_keys(s)[s.len() - 1]);
        assert(entry_keys(s.drop_last()) =~= entry_keys(s).drop_last());
        assert(s.drop_last()[i] == s[i]);
        entries_map_lookup(s.drop_last(), i);
    }
}

proof fn entries_map_keys<V>(s: Seq<(String, V)>, k: Seq<char>)
    ensures
        entries_map(s).contains_key(k) <==> entry_keys(s).contains(k),
    decreases s.len(),
{
    if s.len() > 0 {
        entries_map_keys(s.drop_last(), k);
        assert(entry_keys(s.drop_last()) =~= entry_keys(s).drop_last());
        if entry_keys(s).contains(k) && k != s.last().0@ {
            let i = choose|i: int| 0 <= i < entry_keys(s).len() && #[trigger] entry_keys(s)[i] == k;
            assert(entry_keys(s.drop_last())[i] == k);
        }
        if k == s.last().0@ {
            assert(entry_keys(s)[s.len() - 1] == k);
        }
    }
}

/// A cache from strings to values of type `V`. The entries are held in a
/// vector with at most one entry per string: vstd specifies `HashMap` only
/// for key types known to obey its key model, and `String` is not one of
/// them, so a `HashMap<String, V>` would carry no contract here.
pub struct CStrCache<V> {
    entries: Vec<(String, V)>,
}

impl<V> View for CStrCache<V> {
    type V = Map<Seq<char>, V>;

    closed spec fn view(&self) -> Map<Seq<char>, V> {
        entries_map(self.entries@)
    }
}

impl<V> CStrCache<V> {
    /// Each string has at most one entry.
    #[verifier::type_invariant]
    closed spec fn well_formed(&self) -> bool {
        entry_keys(self.entries@).no_duplicates()
    }

    /// An empty cache.
    pub fn new() -> (r: Self)
        ensures
            r@ == Map::<Seq<char>, V>::empty(),
    {
        let r = CStrCache { entries: Vec::new() };
        assert(entry_keys(r.entries@) =~= Seq::<Seq<char>>::empty());
        r
    }

    /// The value that the cache holds for the string, if any.
    pub fn get(&self, key: &str) -> (r: Option<&V>)
        ensures
            r is Some <==> self@.contains_key(key@),
            r matches Some(v) ==> *v == self@[key@],
    {
        proof {
            use_type_invariant(self);
        }
        let k = key.to_owned();
        let mut i: usize = 0;
        while i < self.entries.len()
            invariant
                0 <= i <= self.entries@.len(),
                k@ == key@,
                entry_keys(self.entries@).no_duplicates(),
                forall|j: int| 0 <= j < i ==> entry_keys(self.entries@)[j] != key@,
            decreases self.entries@.len() - i,
        {
            if self.entries[i].0 == k {
                proof {
                    entries_map_lookup(self.entries@, i as int);
                }
                return Some(&self.entries[i].1);
            }
            i = i + 1;
        }
        proof {
            entries_map_keys(self.entries@, key@);
        }
        None
    }

    /// Requests that the cache hold `value` for `key`: where the key has a
    /// value already, that value stays and `false` is returned; otherwise
    /// the value is added and `true` is returned.
    pub fn insert(&mut self, key: &str, value: V) -> (added: bool)
        ensures
            added == !old(self)@.contains_key(key@),
            final(self)@ == cache_after_insert(old(self)@, key@, value),
    {
        proof {
            use_type_invariant(&*self);
        }
        if self.get(key).is_some() {
            return false;
        }
        proof {
            entries_map_keys(self.entries@, key@);
        }
        let ghost before = self.entries@;
        let entry = (key.to_owned(), value);
        let mut entries = Vec::new();
        std::mem::swap(&mut entries, &mut self.entries);
        entries.push(entry);
        proof {
            assert(entries@.drop_last() == before);
            assert(entry_keys(entries@) =~= entry_keys(before).push(key@));
        }
        self.entries = entries;
        true
    }
}

/// Once the cache holds a value for a string, every later request keeps
/// it: after any request to add a value for any string, every string that
/// had a value still has the same value.
pub proof fn cache_values_are_stable<V>(m: Map<Seq<char>, V>, key: Seq<char>, value: V, k: Seq<char>)
    requires
        m.contains_key(k),
    ensures
        cache_after_insert(m, key, value).contains_key(k),
        cache_after_insert(m, key, value)[k] == m[k],
{
}

/// A request to add a value for a string is answered: afterwards the cache
/// holds a value for the string, the requested one where it had none.
pub proof fn cache_holds_requested_key<V>(m: Map<Seq<char>, V>, key: Seq<char>, value: V)
    ensures
        cache_after_insert(m, key, value).contains_key(key),
        !m.contains_key(key) ==> cache_after_insert(m, key, value)[key] == value,
{
}

} // verus!
