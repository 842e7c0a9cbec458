use indicium::simple::SearchIndex;
use vstd::prelude::*;
use vstd::string::*;

verus! {

/// The search index of the `indicium` crate. Nothing inside it is visible
/// here; what it holds is spoken of through `index_names`.
#[verifier::external_type_specification]
#[verifier::external_body]
#[verifier::reject_recursive_types(K)]
pub struct ExSearchIndex<K: Ord>(SearchIndex<K>);

/// The string type of the `kstring` crate, in which the index keeps its
/// keywords. It is named here only because the index can be borrowed as the
/// map that holds them; nothing in this library touches a value of it.
#[verifier::external_type_specification]
#[verifier::external_body]
#[verifier::reject_recursive_types(B)]
pub struct ExKStringBase<B>(kstring::KStringBase<B>);

/// The names that have been put into `index`.
pub uninterp spec fn index_names(index: SearchIndex<String>) -> Set<Seq<char>>;

/// The names that a search for `query` finds among `names`: what
/// `SearchIndex::search` returns, in its order, on an index with the
/// crate's default settings into which just these names were put, each
/// under its own text.
pub uninterp spec fn search_hits(names: Set<Seq<char>>, query: Seq<char>) -> Seq<Seq<char>>;

/// The number of names up to which the index attaches every name to every
/// one of its keywords. Beyond it the index may leave a name out of a
/// keyword's list, and what a search finds then depends on the order in
/// which the names came.
pub const INDEX_CAPACITY: usize = 40_960;

/// `SearchIndex::default`: an index with the crate's default settings that
/// holds nothing.
#[verifier::external_body]
fn index_new() -> (r: SearchIndex<String>)
    ensures
        index_names(r) == Set::<Seq<char>>::empty(),
{
    SearchIndex::default()
}

/// `SearchIndex::insert` with `name` as the key and as the text to index:
/// the name is then among the names that the index holds, and no other name
/// comes or goes. The crate attaches every key to its catch-all keyword,
/// whatever the size of the index, so no name is ever left out.
#[verifier::external_body]
fn index_insert(index: &mut SearchIndex<String>, name: &String)
    ensures
        index_names(*final(index)) == index_names(*old(index)).insert(name@),
{
    index.insert(name, name);
}

/// `SearchIndex::search`: the keys that the search finds, copied out in the
/// order in which they come. Each is a name that the index holds, and none
/// comes twice, since the crate gathers them in an ordered set. While the
/// index holds no more than `INDEX_CAPACITY` names, what is found depends on
/// the names and the query alone.
#[verifier::external_body]
fn index_search(index: &SearchIndex<String>, query: &str) -> (r: Vec<String>)
    ensures
        forall|k: int| 0 <= k < r.len() ==> index_names(*index).contains(#[trigger] r[k]@),
        forall|i: int, j: int| 0 <= i < j < r.len() ==> r[i]@ != r[j]@,
        index_names(*index).finite() && index_names(*index).len() <= INDEX_CAPACITY
            ==> r.deep_view() == search_hits(index_names(*index), query@),
{
    index.search(query).into_iter().cloned().collect()
}

/// A searchable catalogue of card names.
pub struct CardIndex {
    index: SearchIndex<String>,
    added: usize,
}

impl CardIndex {
    #[verifier::type_invariant]
    spec fn inv(self) -> bool {
        &&& index_names(self.index).finite()
        &&& self.added < usize::MAX ==> index_names(self.index).len() <= self.added
    }

    /// The names in the catalogue.
    pub closed spec fn names(&self) -> Set<Seq<char>> {
        index_names(self.index)
    }

    /// How often a name has been added, the same name counted each time.
    pub closed spec fn added_names(&self) -> nat {
        self.added as nat
    }

    /// So few names were added that a search depends on the names and the
    /// query alone.
    pub open spec fn exact(&self) -> bool {
        self.added_names() <= INDEX_CAPACITY
    }

    /// An empty catalogue.
    pub fn new() -> (r: Self)
        ensures
            r.names() == Set::<Seq<char>>::empty(),
            r.added_names() == 0,
    {
        CardIndex { index: index_new(), added: 0 }
    }

    /// Whether a search in this catalogue depends on its names and the query
    /// alone.
    pub fn is_exact(&self) -> (r: bool)
        ensures
            r == self.exact(),
    {
        self.added <= INDEX_CAPACITY
    }

    /// Adds `name` to the catalogue.
    pub fn insert(&mut self, name: &str)
        ensures
            final(self).names() == old(self).names().insert(name@),
            final(self).added_names() == if old(self).added_names() < usize::MAX {
                old(self).added_names() + 1
            } else {
                old(self).added_names()
            },
    {
        proof {
            use_type_invariant(&*self);
        }
        let owned = String::from_str(name);
        if self.added < usize::MAX {
            self.added = self.added + 1;
        }
        // The index is taken out while it changes and put back when it has
        // changed, so that the catalogue is whole at every moment.
        let mut index = index_new();
        core::mem::swap(&mut self.index, &mut index);
        index_insert(&mut index, &owned);
        core::mem::swap(&mut self.index, &mut index);
    }

    /// The catalogue of the names in `names`.
    pub fn from_names(names: &Vec<String>) -> (r: Self)
        ensures
            r.names() == names.deep_view().to_set(),
            r.added_names() == names.len(),
    {
        let ghost all = names.deep_view();
        let mut r = CardIndex::new();
        let mut i: usize = 0;
        assert(all.take(0).to_set() =~= Set::<Seq<char>>::empty());
        while i < names.len()
            invariant
                i <= names.len(),
                all == names.deep_view(),
                r.names() == all.take(i as int).to_set(),
                r.added_names() == i,
            decreases names.len() - i,
        {
            r.insert(names[i].as_str());
            proof {
                assert(all[i as int] == names[i as int]@);
                assert(all.take(i + 1) =~= all.take(i as int).push(all[i as int]));
                assert forall|t: Seq<char>|
                    all.take(i + 1).to_set().contains(t) <==> all.take(i as int).to_set().insert(
                        all[i as int],
                    ).contains(t) by {
                    crate::text::lemma_contains_push(all.take(i as int), all[i as int], t);
                }
                assert(all.take(i + 1).to_set() =~= all.take(i as int).to_set().insert(
                    all[i as int],
                ));
            }
            i += 1;
        }
        assert(all.take(i as int) =~= all);
        r
    }

    /// The names that a search for `query` finds, in the order in which the
    /// index gives them; none comes twice.
    pub fn search(&self, query: &str) -> (r: Vec<String>)
        ensures
            forall|k: int| 0 <= k < r.len() ==> self.names().contains(#[trigger] r[k]@),
            forall|i: int, j: int| 0 <= i < j < r.len() ==> r[i]@ != r[j]@,
            self.exact() ==> r.deep_view() == search_hits(self.names(), query@),
    {
        proof {
            use_type_invariant(self);
        }
        index_search(&self.index, query)
    }
}

} // verus!
