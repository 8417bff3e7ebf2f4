//! The metadata of a field: a map from keys to values.
use vstd::prelude::*;

verus! {

/// One value of a field's metadata.
#[derive(Debug, PartialEq, Eq)]
pub enum MetadataValue {
    Number(i64),
    String(String),
    Boolean(bool),
    /// A value of any other kind, as the text that shows it.
    Other(String),
}

/// What a [`MetadataValue`] holds.
pub enum ValueView {
    Number(int),
    Text(Seq<char>),
    Boolean(bool),
    Other(Seq<char>),
}

impl View for MetadataValue {
    type V = ValueView;

    open spec fn view(&self) -> ValueView {
        match self {
            MetadataValue::Number(n) => ValueView::Number(*n as int),
            MetadataValue::String(s) => ValueView::Text(s@),
            MetadataValue::Boolean(b) => ValueView::Boolean(*b),
            MetadataValue::Other(s) => ValueView::Other(s@),
        }
    }
}

impl Clone for MetadataValue {
    fn clone(&self) -> (r: Self)
        ensures
            r@ == self@,
    {
        match self {
            MetadataValue::Number(n) => MetadataValue::Number(*n),
            MetadataValue::String(s) => MetadataValue::String(s.clone()),
            MetadataValue::Boolean(b) => MetadataValue::Boolean(*b),
            MetadataValue::Other(s) => MetadataValue::Other(s.clone()),
        }
    }
}

/// A map from keys to values, as a list of entries. No two entries have the same key. It is a list
/// because it has to be walked and copied, and vstd's hash map with string keys offers neither.
#[derive(Debug, Eq)]
pub struct Metadata {
    entries: Vec<(String, MetadataValue)>,
}

/// The map that a list of entries stands for.
spec fn entries_map(entries: Seq<(String, MetadataValue)>) -> Map<Seq<char>, ValueView>
    decreases entries.len(),
{
    if entries.len() == 0 {
        Map::empty()
    } else {
        entries_map(entries.drop_first()).insert(entries[0].0@, entries[0].1@)
    }
}

impl View for Metadata {
    type V = Map<Seq<char>, ValueView>;

    closed spec fn view(&self) -> Map<Seq<char>, ValueView> {
        entries_map(self.entries@)
    }
}

/// The value of a key is that of the first entry with the key.
proof fn lemma_entries_map_first(entries: Seq<(String, MetadataValue)>, key: Seq<char>, at: int)
    requires
        0 <= at < entries.len(),
        entries[at].0@ == key,
        forall|j: int| 0 <= j < at ==> (#[trigger] entries[j]).0@ != key,
    ensures
        entries_map(entries).contains_key(key),
        entries_map(entries)[key] == entries[at].1@,
    decreases at,
{
    if at > 0 {
        lemma_entries_map_first(entries.drop_first(), key, at - 1);
    }
}

/// A key that no entry has is not in the map.
proof fn lemma_entries_map_absent(entries: Seq<(String, MetadataValue)>, key: Seq<char>)
    requires
        forall|j: int| 0 <= j < entries.len() ==> (#[trigger] entries[j]).0@ != key,
    ensures
        !entries_map(entries).contains_key(key),
    decreases entries.len(),
{
    if entries.len() > 0 {
        lemma_entries_map_absent(entries.drop_first(), key);
    }
}

/// A key in the map is that of some entry.
proof fn lemma_entries_map_key(entries: Seq<(String, MetadataValue)>, key: Seq<char>) -> (at: int)
    requires
        entries_map(entries).contains_key(key),
    ensures
        0 <= at < entries.len(),
        entries[at].0@ == key,
    decreases entries.len(),
{
    if entries[0].0@ == key {
        0
    } else {
        lemma_entries_map_key(entries.drop_first(), key) + 1
    }
}

/// The key of each entry is in the map.
proof fn lemma_entries_map_has(entries: Seq<(String, MetadataValue)>, at: int)
    requires
        0 <= at < entries.len(),
    ensures
        entries_map(entries).contains_key(entries[at].0@),
    decreases entries.len(),
{
    if at > 0 {
        lemma_entries_map_has(entries.drop_first(), at - 1);
    }
}

/// Replacing the value in the first entry with a key replaces the key's value.
proof fn lemma_entries_map_update(
    entries: Seq<(String, MetadataValue)>,
    key: Seq<char>,
    at: int,
    entry: (String, MetadataValue),
)
    requires
        0 <= at < entries.len(),
        entries[at].0@ == key,
        entry.0@ == key,
        forall|j: int| 0 <= j < at ==> (#[trigger] entries[j]).0@ != key,
    ensures
        entries_map(entries.update(at, entry)) == entries_map(entries).insert(key, entry.1@),
    decreases at,
{
    let updated = entries.update(at, entry);
    if at > 0 {
        lemma_entries_map_update(entries.drop_first(), key, at - 1, entry);
        assert(updated.drop_first() =~= entries.drop_first().update(at - 1, entry));
        assert(entries_map(updated) =~= entries_map(entries).insert(key, entry.1@));
    } else {
        assert(updated.drop_first() =~= entries.drop_first());
        assert(entries_map(updated) =~= entries_map(entries).insert(key, entry.1@));
    }
}

/// Appending an entry with a new key adds the key to the map.
proof fn lemma_entries_map_push(
    entries: Seq<(String, MetadataValue)>,
    entry: (String, MetadataValue),
)
    requires
        forall|j: int| 0 <= j < entries.len() ==> (#[trigger] entries[j]).0@ != entry.0@,
    ensures
        entries_map(entries.push(entry)) == entries_map(entries).insert(entry.0@, entry.1@),
    decreases entries.len(),
{
    let pushed = entries.push(entry);
    if entries.len() > 0 {
        lemma_entries_map_push(entries.drop_first(), entry);
        assert(pushed.drop_first() =~= entries.drop_first().push(entry));
        assert(entries_map(pushed) =~= entries_map(entries).insert(entry.0@, entry.1@));
    } else {
        assert(pushed.drop_first() =~= entries);
        assert(entries_map(pushed) =~= entries_map(entries).insert(entry.0@, entry.1@));
    }
}

/// Entries that agree one by one stand for the same map.
proof fn lemma_entries_map_equal(
    left: Seq<(String, MetadataValue)>,
    right: Seq<(String, MetadataValue)>,
)
    requires
        left.len() == right.len(),
        forall|j: int|
            0 <= j < left.len() ==> (#[trigger] left[j]).0@ == right[j].0@ && left[j].1@
                == right[j].1@,
    ensures
        entries_map(left) == entries_map(right),
    decreases left.len(),
{
    if left.len() > 0 {
        lemma_entries_map_equal(left.drop_first(), right.drop_first());
    }
}

/// Whether no two entries have the same key.
spec fn keys_differ(entries: Seq<(String, MetadataValue)>) -> bool {
    forall|i: int, j: int|
        0 <= i < j < entries.len() ==> (#[trigger] entries[i]).0@ != (#[trigger] entries[j]).0@
}

impl Metadata {
    /// What holds of every map: its entries have different keys.
    #[verifier::type_invariant]
    spec fn well_formed(self) -> bool {
        keys_differ(self.entries@)
    }

    /// The empty map.
    pub fn new() -> (r: Self)
        ensures
            r@ == Map::<Seq<char>, ValueView>::empty(),
    {
        Metadata { entries: Vec::new() }
    }

    /// The index of the first entry with the key.
    fn position(&self, key: &str) -> (r: Option<usize>)
        ensures
            match r {
                Some(at) => {
                    &&& at < self.entries@.len()
                    &&& self.entries@[at as int].0@ == key@
                    &&& forall|j: int|
                        0 <= j < at ==> (#[trigger] self.entries@[j]).0@ != key@
                    &&& self@.contains_key(key@)
                    &&& self@[key@] == self.entries@[at as int].1@
                },
                None => {
                    &&& forall|j: int|
                        0 <= j < self.entries@.len() ==> (#[trigger] self.entries@[j]).0@ != key@
                    &&& !self@.contains_key(key@)
                },
            },
    {
        let wanted = key.to_owned();
        let mut i: usize = 0;
        while i < self.entries.len()
            invariant
                i <= self.entries@.len(),
                wanted@ == key@,
                forall|j: int| 0 <= j < i ==> (#[trigger] self.entries@[j]).0@ != key@,
            decreases self.entries@.len() - i,
        {
            if self.entries[i].0 == wanted {
                proof {
                    lemma_entries_map_first(self.entries@, key@, i as int);
                }
                return Some(i);
            }
            i += 1;
        }
        proof {
            lemma_entries_map_absent(self.entries@, key@);
        }
        None
    }

    /// The value of a key.
    pub fn get(&self, key: &str) -> (r: Option<&MetadataValue>)
        ensures
            match r {
                Some(value) => self@.contains_key(key@) && value@ == self@[key@],
                None => !self@.contains_key(key@),
            },
    {
        match self.position(key) {
            Some(at) => Some(&self.entries[at].1),
            None => None,
        }
    }

    /// Whether a key has a value.
    pub fn contains_key(&self, key: &str) -> (r: bool)
        ensures
            r == self@.contains_key(key@),
    {
        self.position(key).is_some()
    }

    /// The keys that have a value, each once.
    pub fn keys(&self) -> (r: Vec<String>)
        ensures
            forall|i: int, j: int|
                0 <= i < j < r@.len() ==> (#[trigger] r@[i])@ != (#[trigger] r@[j])@,
            forall|key: Seq<char>| #[trigger]
                self@.contains_key(key) <==> exists|i: int|
                    0 <= i < r@.len() && (#[trigger] r@[i])@ == key,
    {
        proof {
            use_type_invariant(self);
        }
        let mut keys: Vec<String> = Vec::new();
        let mut i: usize = 0;
        while i < self.entries.len()
            invariant
                i <= self.entries@.len(),
                keys@.len() == i,
                forall|j: int| 0 <= j < i ==> (#[trigger] keys@[j])@ == self.entries@[j].0@,
            decreases self.entries@.len() - i,
        {
            keys.push(self.entries[i].0.clone());
            i += 1;
        }
        proof {
            assert forall|i: int, j: int| 0 <= i < j < keys@.len() implies (#[trigger] keys@[i])@
                != (#[trigger] keys@[j])@ by {
                assert(self.entries@[i].0@ != self.entries@[j].0@);
            }
            assert forall|key: Seq<char>| #[trigger] self@.contains_key(key) implies exists|j: int|
                0 <= j < keys@.len() && (#[trigger] keys@[j])@ == key by {
                let j = lemma_entries_map_key(self.entries@, key);
                assert(keys@[j]@ == key);
            }
            assert forall|key: Seq<char>|
                (exists|j: int| 0 <= j < keys@.len() && (#[trigger] keys@[j])@ == key) implies
                #[trigger] self@.contains_key(key) by {
                let j = choose|j: int| 0 <= j < keys@.len() && (#[trigger] keys@[j])@ == key;
                lemma_entries_map_has(self.entries@, j);
            }
        }
        keys
    }

    /// Whether each key has the same value in another map.
    fn is_within(&self, other: &Metadata) -> (r: bool)
        ensures
            r <==> forall|key: Seq<char>| #[trigger]
                self@.contains_key(key) ==> other@.contains_key(key) && other@[key] == self@[key],
    {
        proof {
            use_type_invariant(self);
        }
        let mut i: usize = 0;
        while i < self.entries.len()
            invariant
                i <= self.entries@.len(),
                keys_differ(self.entries@),
                forall|j: int|
                    0 <= j < i ==> other@.contains_key((#[trigger] self.entries@[j]).0@)
                        && other@[self.entries@[j].0@] == self.entries@[j].1@,
            decreases self.entries@.len() - i,
        {
            let entry = &self.entries[i];
            proof {
                lemma_entries_map_first(self.entries@, entry.0@, i as int);
                assert(self@.contains_key(entry.0@));
            }
            match other.get(entry.0.as_str()) {
                Some(value) => {
                    if !same_value(&entry.1, value) {
                        return false;
                    }
                },
                None => {
                    return false;
                },
            }
            i += 1;
        }
        proof {
            assert forall|key: Seq<char>| #[trigger] self@.contains_key(key) implies
                other@.contains_key(key) && other@[key] == self@[key] by {
                let at = lemma_entries_map_key(self.entries@, key);
                lemma_entries_map_first(self.entries@, key, at);
            }
        }
        true
    }

    /// Gives a key a value, in place of the one that it had.
    pub fn insert(&mut self, key: &str, value: MetadataValue)
        ensures
            final(self)@ == old(self)@.insert(key@, value@),
    {
        proof {
            use_type_invariant(&*self);
        }
        let ghost before = self.entries@;
        let entry = (key.to_owned(), value);
        let found = self.position(key);
        let mut entries: Vec<(String, MetadataValue)> = Vec::new();
        std::mem::swap(&mut entries, &mut self.entries);
        match found {
            Some(at) => {
                proof {
                    lemma_entries_map_update(before, key@, at as int, entry);
                }
                entries.set(at, entry);
            },
            None => {
                proof {
                    lemma_entries_map_push(before, entry);
                }
                entries.push(entry);
            },
        }
        self.entries = entries;
    }
}

/// Whether two values are the same.
fn same_value(left: &MetadataValue, right: &MetadataValue) -> (r: bool)
    ensures
        r == (left@ == right@),
{
    match (left, right) {
        (MetadataValue::Number(m), MetadataValue::Number(n)) => *m == *n,
        (MetadataValue::String(s), MetadataValue::String(t)) => *s == *t,
        (MetadataValue::Boolean(a), MetadataValue::Boolean(b)) => *a == *b,
        (MetadataValue::Other(s), MetadataValue::Other(t)) => *s == *t,
        _ => false,
    }
}

impl PartialEq for Metadata {
    /// Whether two maps hold the same, in whatever order their entries stand.
    fn eq(&self, other: &Self) -> (r: bool) {
        let r = self.is_within(other) && other.is_within(self);
        assert(r ==> self@ =~= other@);
        r
    }
}

impl vstd::std_specs::cmp::PartialEqSpecImpl for Metadata {
    open spec fn obeys_eq_spec() -> bool {
        true
    }

    open spec fn eq_spec(&self, other: &Self) -> bool {
        self@ == other@
    }
}

impl Clone for Metadata {
    fn clone(&self) -> (r: Self)
        ensures
            r@ == self@,
    {
        let mut entries: Vec<(String, MetadataValue)> = Vec::new();
        let mut i: usize = 0;
        while i < self.entries.len()
            invariant
                i <= self.entries@.len(),
                entries@.len() == i,
                forall|j: int|
                    0 <= j < i ==> (#[trigger] entries@[j]).0@ == self.entries@[j].0@
                        && entries@[j].1@ == self.entries@[j].1@,
            decreases self.entries@.len() - i,
        {
            entries.push((self.entries[i].0.clone(), self.entries[i].1.clone()));
            i += 1;
        }
        proof {
            use_type_invariant(self);
            lemma_entries_map_equal(entries@, self.entries@);
            assert forall|i: int, j: int| 0 <= i < j < entries@.len() implies (
            #[trigger] entries@[i]).0@ != (#[trigger] entries@[j]).0@ by {
                assert(self.entries@[i].0@ != self.entries@[j].0@);
            }
        }
        Metadata { entries }
    }
}

} // verus!
