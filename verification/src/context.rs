use crate::text_map::{lookup, pair_views, TextMap, upserted};
use vstd::prelude::*;
use vstd::string::*;

verus! {

/// The pairs that result when `pairs` are written into `table` one after
/// the other.
pub open spec fn written_all(
    table: Seq<(Seq<char>, Seq<char>)>,
    pairs: Seq<(Seq<char>, Seq<char>)>,
) -> Seq<(Seq<char>, Seq<char>)>
    decreases pairs.len(),
{
    if pairs.len() == 0 {
        table
    } else {
        upserted(written_all(table, pairs.drop_last()), pairs.last().0, pairs.last().1)
    }
}

/// The settings that outlive a run of the program, and the place where they
/// are kept between runs.
pub struct Context {
    pub data: TextMap,
    pub config_file_path: String,
}

impl Context {
    /// The settings in `entries`, to be kept at `config_file_path`. Of two
    /// entries with one key the later one counts.
    pub fn load_data(config_file_path: &str, entries: &Vec<(String, String)>) -> (r: Self)
        ensures
            r.config_file_path@ == config_file_path@,
            r.data@ == written_all(Seq::empty(), pair_views(entries@)),
    {
        let mut data = TextMap::new();
        let ghost all = pair_views(entries@);
        let mut i: usize = 0;
        while i < entries.len()
            invariant
                i <= entries.len(),
                all == pair_views(entries@),
                data@ == written_all(Seq::empty(), all.take(i as int)),
            decreases entries.len() - i,
        {
            proof {
                assert(all.take(i + 1).drop_last() =~= all.take(i as int));
                assert(all.take(i + 1).last() == (entries[i as int].0@, entries[i as int].1@));
            }
            data.insert(entries[i].0.as_str(), entries[i].1.as_str());
            i += 1;
        }
        assert(all.take(i as int) =~= all);
        Context { data, config_file_path: String::from_str(config_file_path) }
    }

    /// The value of the setting `key`, if it has one.
    pub fn read_data(&self, key: &str) -> (r: Option<String>)
        ensures
            match r {
                Some(value) => lookup(self.data@, key@) == Some(value@),
                None => lookup(self.data@, key@) is None,
            },
    {
        self.data.get(key)
    }

    /// Gives the setting `key` the value `value`. Writing the settings to
    /// their place is left to the caller.
    pub fn write_data(&mut self, key: &str, value: &str)
        ensures
            final(self).data@ == upserted(old(self).data@, key@, value@),
            final(self).config_file_path == old(self).config_file_path,
    {
        self.data.insert(key, value);
    }
}

} // verus!
