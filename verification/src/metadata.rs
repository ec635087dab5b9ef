//! Where the files of a unified output came from: a record from file name
//! to the id of a source folder.
use vstd::prelude::*;
use vstd::string::*;
use crate::text::same_text;

verus! {

/// One file name and the folder it came from.
#[derive(Debug, Clone, PartialEq, Eq)]
pub struct Origin {
    pub name: String,
    pub folder_id: String,
}

/// The origins of the files in a unified output. The record is a list of
/// entries in the order they were made; where a name occurs more than once
/// the latest entry counts.
#[derive(Debug, Clone, PartialEq, Eq)]
pub struct OutputMetadata {
    pub file_origins: Vec<Origin>,
}

/// The map that a list of entries stands for: later entries win.
pub open spec fn origin_map(entries: Seq<Origin>) -> Map<Seq<char>, Seq<char>>
    decreases entries.len(),
{
    if entries.len() == 0 {
        Map::empty()
    } else {
        origin_map(entries.drop_last()).insert(entries.last().name@, entries.last().folder_id@)
    }
}

impl View for OutputMetadata {
    type V = Map<Seq<char>, Seq<char>>;

    open spec fn view(&self) -> Map<Seq<char>, Seq<char>> {
        origin_map(self.file_origins@)
    }
}

impl OutputMetadata {
    /// A record without entries.
    pub fn new() -> (metadata: Self)
        ensures
            metadata@ == Map::<Seq<char>, Seq<char>>::empty(),
            metadata.file_origins@.len() == 0,
    {
        OutputMetadata { file_origins: Vec::new() }
    }

    /// Records that the file called `name` came from the folder `folder_id`,
    /// in place of what was known of that name.
    pub fn insert(&mut self, name: String, folder_id: String)
        ensures
            final(self)@ == old(self)@.insert(name@, folder_id@),
            final(self).file_origins@ == old(self).file_origins@.push(
                (Origin { name, folder_id }),
            ),
    {
        let ghost before = self.file_origins@;
        self.file_origins.push(Origin { name, folder_id });
        proof {
            assert(self.file_origins@.drop_last() =~= before);
        }
    }

    /// The folder that the file called `name` came from, where that is
    /// known.
    pub fn get(&self, name: &str) -> (folder_id: Option<String>)
        ensures
            match folder_id {
                Some(id) => self@.contains_key(name@) && self@[name@] == id@,
                None => !self@.contains_key(name@),
            },
    {
        let mut i: usize = self.file_origins.len();
        proof {
            assert(self.file_origins@.take(i as int) =~= self.file_origins@);
        }
        while i > 0
            invariant
                i <= self.file_origins.len(),
                origin_map(self.file_origins@).contains_key(name@) == origin_map(
                    self.file_origins@.take(i as int),
                ).contains_key(name@),
                origin_map(self.file_origins@).contains_key(name@) ==> origin_map(
                    self.file_origins@,
                )[name@] == origin_map(self.file_origins@.take(i as int))[name@],
            decreases i,
        {
            proof {
                assert(self.file_origins@.take(i as int).drop_last() =~= self.file_origins@.take(
                    i as int - 1,
                ));
            }
            if same_text(self.file_origins[i - 1].name.as_str(), name) {
                return Some(self.file_origins[i - 1].folder_id.clone());
            }
            i -= 1;
        }
        None
    }

    /// The record with further entries added, in their order.
    pub fn with_origins(self, origins: &Vec<Origin>) -> (metadata: Self)
        ensures
            metadata.file_origins@ == self.file_origins@ + origins@,
    {
        let ghost start = self.file_origins@;
        let mut metadata = self;
        let mut i: usize = 0;
        while i < origins.len()
            invariant
                i <= origins.len(),
                metadata.file_origins@ == start + origins@.take(i as int),
            decreases origins.len() - i,
        {
            let entry = Origin {
                name: origins[i].name.clone(),
                folder_id: origins[i].folder_id.clone(),
            };
            assert(entry == origins@[i as int]);
            metadata.file_origins.push(entry);
            proof {
                assert(origins@.take(i as int + 1) =~= origins@.take(i as int).push(
                    origins@[i as int],
                ));
            }
            i += 1;
        }
        proof {
            assert(origins@.take(origins.len() as int) =~= origins@);
        }
        metadata
    }
}

/// The record that a step which stores the record writes: what was read
/// before, or an empty record where nothing was read, with the origins
/// that were booked since added in their order.
pub fn record_to_store(read: Option<OutputMetadata>, origins: &Vec<Origin>) -> (stored:
    OutputMetadata)
    ensures
        stored.file_origins@ == (match read {
            Some(record) => record.file_origins@,
            None => Seq::empty(),
        }) + origins@,
{
    match read {
        Some(record) => record.with_origins(origins),
        None => OutputMetadata::new().with_origins(origins),
    }
}

impl Default for OutputMetadata {
    fn default() -> (metadata: Self)
        ensures
            metadata@ == Map::<Seq<char>, Seq<char>>::empty(),
    {
        OutputMetadata::new()
    }
}

/// Entries over plain text: file name and folder id.
pub open spec fn origin_views(origins: Seq<Origin>) -> Seq<(Seq<char>, Seq<char>)> {
    Seq::new(origins.len(), |i: int| (origins[i].name@, origins[i].folder_id@))
}

/// The map that a list of pairs of file name and folder id stands for:
/// later pairs win.
pub open spec fn record_of(pairs: Seq<(Seq<char>, Seq<char>)>) -> Map<Seq<char>, Seq<char>>
    decreases pairs.len(),
{
    if pairs.len() == 0 {
        Map::empty()
    } else {
        record_of(pairs.drop_last()).insert(pairs.last().0, pairs.last().1)
    }
}

/// Whether a list of pairs speaks of a name.
pub open spec fn names_pair(pairs: Seq<(Seq<char>, Seq<char>)>, name: Seq<char>) -> bool {
    exists|k: int| 0 <= k < pairs.len() && (#[trigger] pairs[k]).0 == name
}

/// The map of a list of entries is the map of its pairs.
pub proof fn origin_map_is_record(entries: Seq<Origin>)
    ensures
        origin_map(entries) == record_of(origin_views(entries)),
    decreases entries.len(),
{
    if entries.len() > 0 {
        origin_map_is_record(entries.drop_last());
        assert(origin_views(entries).drop_last() =~= origin_views(entries.drop_last()));
    }
}

/// The map of a list of pairs knows exactly the names that the list
/// speaks of.
pub proof fn record_domain(pairs: Seq<(Seq<char>, Seq<char>)>)
    ensures
        forall|name: Seq<char>| record_of(pairs).contains_key(name) <==> names_pair(pairs, name),
    decreases pairs.len(),
{
    if pairs.len() > 0 {
        let front = pairs.drop_last();
        record_domain(front);
        assert forall|name: Seq<char>| record_of(pairs).contains_key(name) <==> names_pair(
            pairs,
            name,
        ) by {
            if names_pair(pairs, name) {
                let k = choose|k: int| 0 <= k < pairs.len() && (#[trigger] pairs[k]).0 == name;
                if k < front.len() {
                    assert(front[k].0 == name);
                    assert(names_pair(front, name));
                }
            }
            if names_pair(front, name) {
                let k = choose|k: int| 0 <= k < front.len() && (#[trigger] front[k]).0 == name;
                assert(pairs[k].0 == name);
            }
            if pairs.last().0 == name {
                assert(pairs[pairs.len() - 1].0 == name);
            }
        }
    }
}

/// Where every pair that speaks of a name gives the same folder, the map
/// gives that folder for the name.
pub proof fn record_value(pairs: Seq<(Seq<char>, Seq<char>)>, name: Seq<char>, id: Seq<char>)
    requires
        names_pair(pairs, name),
        forall|k: int| 0 <= k < pairs.len() && (#[trigger] pairs[k]).0 == name ==> pairs[k].1 == id,
    ensures
        record_of(pairs).contains_key(name),
        record_of(pairs)[name] == id,
    decreases pairs.len(),
{
    record_domain(pairs);
    if pairs.len() > 0 {
        let front = pairs.drop_last();
        if pairs.last().0 != name {
            let k = choose|k: int| 0 <= k < pairs.len() && (#[trigger] pairs[k]).0 == name;
            assert(front[k].0 == name);
            assert forall|j: int| 0 <= j < front.len() && (#[trigger] front[j]).0
                == name implies front[j].1 == id by {
                assert(pairs[j].0 == name);
            }
            record_value(front, name, id);
        } else {
            assert(pairs[pairs.len() - 1].0 == name);
        }
    }
}

/// A list of pairs speaks of a name when one of its two parts does.
pub proof fn names_pair_of_parts(
    a: Seq<(Seq<char>, Seq<char>)>,
    b: Seq<(Seq<char>, Seq<char>)>,
    name: Seq<char>,
)
    ensures
        names_pair(a + b, name) <==> names_pair(a, name) || names_pair(b, name),
{
    if names_pair(a + b, name) {
        let k = choose|k: int| 0 <= k < (a + b).len() && (#[trigger] (a + b)[k]).0 == name;
        if k < a.len() {
            assert(a[k].0 == name);
        } else {
            assert(b[k - a.len()].0 == name);
        }
    }
    if names_pair(a, name) {
        let k = choose|k: int| 0 <= k < a.len() && (#[trigger] a[k]).0 == name;
        assert((a + b)[k].0 == name);
    }
    if names_pair(b, name) {
        let k = choose|k: int| 0 <= k < b.len() && (#[trigger] b[k]).0 == name;
        assert((a + b)[a.len() + k].0 == name);
    }
}

} // verus!
