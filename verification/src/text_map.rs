use crate::text::same_text;
use vstd::prelude::*;
use vstd::string::*;

verus! {

/// The place of the first pair of `pairs` whose key is `key`; the length of
/// `pairs` where no pair has that key.
pub open spec fn key_index(pairs: Seq<(Seq<char>, Seq<char>)>, key: Seq<char>) -> int
    decreases pairs.len(),
{
    if pairs.len() == 0 || pairs[0].0 == key {
        0
    } else {
        1 + key_index(pairs.drop_first(), key)
    }
}

/// The value that `pairs` gives to `key`: that of the first pair with that
/// key.
pub open spec fn lookup(pairs: Seq<(Seq<char>, Seq<char>)>, key: Seq<char>) -> Option<Seq<char>> {
    if key_index(pairs, key) < pairs.len() {
        Some(pairs[key_index(pairs, key)].1)
    } else {
        None
    }
}

/// `pairs` after `key` has been given `value`: the first pair with that key
/// has the new value, and where there was none, a new pair stands at the
/// end.
pub open spec fn upserted(pairs: Seq<(Seq<char>, Seq<char>)>, key: Seq<char>, value: Seq<char>)
    -> Seq<(Seq<char>, Seq<char>)> {
    if key_index(pairs, key) < pairs.len() {
        pairs.update(key_index(pairs, key), (key, value))
    } else {
        pairs.push((key, value))
    }
}

/// `key_index` is the one place before which no pair has the key and at
/// which, unless it is the end, a pair has it.
pub proof fn lemma_key_index(pairs: Seq<(Seq<char>, Seq<char>)>, key: Seq<char>)
    ensures
        0 <= key_index(pairs, key) <= pairs.len(),
        forall|j: int| 0 <= j < key_index(pairs, key) ==> (#[trigger] pairs[j]).0 != key,
        key_index(pairs, key) < pairs.len() ==> pairs[key_index(pairs, key)].0 == key,
    decreases pairs.len(),
{
    if pairs.len() == 0 || pairs[0].0 == key {
    } else {
        let rest = pairs.drop_first();
        lemma_key_index(rest, key);
        assert forall|j: int| 0 <= j < key_index(pairs, key) implies (#[trigger] pairs[j]).0
            != key by {
            if j > 0 {
                assert(pairs[j] == rest[j - 1]);
            }
        }
        if key_index(pairs, key) < pairs.len() {
            assert(pairs[key_index(pairs, key)] == rest[key_index(rest, key)]);
        }
    }
}

/// A place before which no pair has the key, and which is the end or holds
/// a pair with the key, is the key's index.
pub proof fn lemma_key_index_is(pairs: Seq<(Seq<char>, Seq<char>)>, key: Seq<char>, i: int)
    requires
        0 <= i <= pairs.len(),
        forall|j: int| 0 <= j < i ==> (#[trigger] pairs[j]).0 != key,
        i < pairs.len() ==> pairs[i].0 == key,
    ensures
        key_index(pairs, key) == i,
{
    lemma_key_index(pairs, key);
    let k = key_index(pairs, key);
    if k < i {
        assert(pairs[k].0 != key);
    }
    if i < k {
        assert(pairs[i].0 != key);
    }
}

/// Giving a key a value makes a lookup of that key give that value, and
/// changes the lookup of no other key.
pub proof fn lemma_lookup_upserted(
    pairs: Seq<(Seq<char>, Seq<char>)>,
    key: Seq<char>,
    value: Seq<char>,
    other: Seq<char>,
)
    ensures
        lookup(upserted(pairs, key, value), key) == Some(value),
        other != key ==> lookup(upserted(pairs, key, value), other) == lookup(pairs, other),
{
    lemma_key_index(pairs, key);
    lemma_key_index(pairs, other);
    let after = upserted(pairs, key, value);
    let i = key_index(pairs, key);
    assert forall|j: int| 0 <= j < i implies (#[trigger] after[j]).0 != key by {
        assert(after[j] == pairs[j]);
    }
    lemma_key_index_is(after, key, i);
    if other != key {
        let o = key_index(pairs, other);
        assert forall|j: int| 0 <= j < o implies (#[trigger] after[j]).0 != other by {
            if j != i {
                assert(after[j] == pairs[j]);
            }
        }
        if o < pairs.len() {
            assert(o != i);
            assert(after[o] == pairs[o]);
            lemma_key_index_is(after, other, o);
        } else {
            assert forall|j: int| 0 <= j < after.len() implies (#[trigger] after[j]).0 != other by {
                if j < pairs.len() && j != i {
                    assert(after[j] == pairs[j]);
                }
            }
            lemma_key_index_is(after, other, after.len() as int);
        }
    }
}

/// The texts of a list of pairs of strings.
pub open spec fn pair_views(pairs: Seq<(String, String)>) -> Seq<(Seq<char>, Seq<char>)> {
    pairs.map_values(|p: (String, String)| (p.0@, p.1@))
}

/// A small table from texts to texts that keeps its keys in the order in
/// which they first came.
#[derive(Debug)]
pub struct TextMap {
    pub entries: Vec<(String, String)>,
}

impl View for TextMap {
    type V = Seq<(Seq<char>, Seq<char>)>;

    open spec fn view(&self) -> Seq<(Seq<char>, Seq<char>)> {
        pair_views(self.entries@)
    }
}

impl TextMap {
    /// An empty table.
    pub fn new() -> (r: Self)
        ensures
            r@ == Seq::<(Seq<char>, Seq<char>)>::empty(),
    {
        let r = TextMap { entries: Vec::new() };
        assert(r@ =~= Seq::<(Seq<char>, Seq<char>)>::empty());
        r
    }

    /// The number of pairs in the table.
    pub fn len(&self) -> (r: usize)
        ensures
            r == self@.len(),
    {
        self.entries.len()
    }

    /// The place of the first pair with the key `key`, or the number of
    /// pairs where there is none.
    fn find(&self, key: &str) -> (r: usize)
        ensures
            r == key_index(self@, key@),
            r <= self.entries.len(),
    {
        let mut i: usize = 0;
        while i < self.entries.len()
            invariant
                i <= self.entries.len(),
                forall|j: int| 0 <= j < i ==> (#[trigger] self@[j]).0 != key@,
            decreases self.entries.len() - i,
        {
            assert(self@[i as int].0 == self.entries[i as int].0@);
            if same_text(self.entries[i].0.as_str(), key) {
                proof {
                    lemma_key_index_is(self@, key@, i as int);
                }
                return i;
            }
            i += 1;
        }
        proof {
            lemma_key_index_is(self@, key@, i as int);
        }
        i
    }

    /// The value that the table gives to `key`.
    pub fn get(&self, key: &str) -> (r: Option<String>)
        ensures
            match r {
                Some(value) => lookup(self@, key@) == Some(value@),
                None => lookup(self@, key@) is None,
            },
    {
        let i = self.find(key);
        if i < self.entries.len() {
            assert(self@[i as int].1 == self.entries[i as int].1@);
            Some(self.entries[i].1.clone())
        } else {
            None
        }
    }

    /// Gives `key` the value `value`, in place of the value it had.
    pub fn insert(&mut self, key: &str, value: &str)
        ensures
            final(self)@ == upserted(old(self)@, key@, value@),
    {
        let i = self.find(key);
        let pair = (String::from_str(key), String::from_str(value));
        if i < self.entries.len() {
            self.entries.set(i, pair);
            assert(self@ =~= upserted(old(self)@, key@, value@));
        } else {
            self.entries.push(pair);
            assert(self@ =~= upserted(old(self)@, key@, value@));
        }
    }
}

impl Clone for TextMap {
    fn clone(&self) -> (r: Self)
        ensures
            r@ == self@,
    {
        let mut entries: Vec<(String, String)> = Vec::new();
        let mut i: usize = 0;
        while i < self.entries.len()
            invariant
                i <= self.entries.len(),
                entries.len() == i,
                forall|k: int|
                    0 <= k < i ==> (#[trigger] entries[k]).0@ == self.entries[k].0@ && entries[k].1@
                        == self.entries[k].1@,
            decreases self.entries.len() - i,
        {
            entries.push((self.entries[i].0.clone(), self.entries[i].1.clone()));
            i += 1;
        }
        let r = TextMap { entries };
        assert(r@ =~= self@);
        r
    }
}

} // verus!
