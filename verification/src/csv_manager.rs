//! The cache of loaded CSV files, keyed by session identifier.
use vstd::prelude::*;
use vstd::string::StringExecFns;
use std::collections::HashMap;
use crate::csv_error::CsvError;
use crate::data::CementingData;
use crate::time::{session_id_text, uuid_text};

verus! {

broadcast use vstd::std_specs::hash::group_hash_axioms;

/// Text of the error for a session that is not in the cache.
pub open spec fn not_cached_text(id: u128) -> Seq<char> {
    "Файл с ID "@ + uuid_text(id) + " не найден в кэше"@
}

/// Every file is stored under its own session identifier.
pub open spec fn keyed_by_id(files: Map<u128, CementingData>) -> bool {
    forall|k: u128| files.dom().contains(k) ==> (#[trigger] files[k]).id == k
}

/// Loaded files, by session identifier.
pub struct CsvManager {
    cache: HashMap<u128, CementingData>,
}

impl CsvManager {
    /// The loaded files.
    pub closed spec fn files(self) -> Map<u128, CementingData> {
        self.cache@
    }

    /// Each file is stored under its own identifier.
    #[verifier::type_invariant]
    spec fn stored_under_own_id(self) -> bool {
        keyed_by_id(self.cache@)
    }

    /// An empty cache.
    pub fn new() -> (r: Self)
        ensures
            r.files() == Map::<u128, CementingData>::empty(),
            keyed_by_id(r.files()),
    {
        CsvManager { cache: HashMap::new() }
    }

    /// Stores the data of a parsed file under its session identifier and
    /// returns that identifier.
    pub fn insert_data(&mut self, data: CementingData) -> (id: u128)
        ensures
            id == data.id,
            final(self).files() == old(self).files().insert(id, data),
            keyed_by_id(final(self).files()),
    {
        proof {
            use_type_invariant(&*self);
        }
        let id = data.id;
        let mut cache = HashMap::new();
        std::mem::swap(&mut cache, &mut self.cache);
        cache.insert(id, data);
        self.cache = cache;
        id
    }

    /// A copy of the data stored under `id`; the error names the missing
    /// identifier.
    pub fn get_data_result(&self, id: u128) -> (r: Result<CementingData, CsvError>)
        ensures
            self.files().contains_key(id) ==> (r matches Ok(d) && d.same_as(self.files()[id])
                && d.id == id),
            !self.files().contains_key(id) ==> (r matches Err(CsvError::FileNotFound(msg))
                && msg@ == not_cached_text(id)),
    {
        proof {
            use_type_invariant(self);
        }
        match self.cache.get(&id) {
            Some(d) => Ok(d.clone()),
            None => {
                let mut msg = String::from_str("Файл с ID ");
                let text = session_id_text(id);
                msg.append(text.as_str());
                msg.append(" не найден в кэше");
                Err(CsvError::FileNotFound(msg))
            },
        }
    }

    /// Drops the data stored under `id`; whether there was any.
    pub fn unload_file(&mut self, id: u128) -> (r: bool)
        ensures
            r == old(self).files().contains_key(id),
            final(self).files() == old(self).files().remove(id),
            keyed_by_id(final(self).files()),
    {
        proof {
            use_type_invariant(&*self);
        }
        let mut cache = HashMap::new();
        std::mem::swap(&mut cache, &mut self.cache);
        let found = cache.remove(&id).is_some();
        self.cache = cache;
        found
    }

    /// Drops every stored file.
    pub fn clear_cache(&mut self)
        ensures
            final(self).files() == Map::<u128, CementingData>::empty(),
            keyed_by_id(final(self).files()),
    {
        self.cache = HashMap::new();
    }

    /// A copy of every stored file, each once, in no particular order.
    pub fn list_files(&self) -> (r: Vec<CementingData>)
        ensures
            exists|ids: Seq<u128>|
                {
                    &&& ids.no_duplicates()
                    &&& ids.to_set() == self.files().dom()
                    &&& ids.len() == r@.len()
                    &&& forall|i: int|
                        0 <= i < ids.len() ==> (#[trigger] r@[i]).same_as(self.files()[ids[i]])
                            && r@[i].id == ids[i]
                },
    {
        proof {
            use_type_invariant(self);
        }
        let mut out: Vec<CementingData> = Vec::new();
        let ghost mut ids: Seq<u128> = seq![];
        for k in it: self.cache.keys()
            invariant
                ids == it.seq().take(it.index()).map_values(|k: &u128| *k),
                out@.len() == ids.len(),
                forall|i: int| 0 <= i < ids.len() ==> self.files().contains_key(#[trigger] ids[i]),
                forall|i: int|
                    0 <= i < ids.len() ==> (#[trigger] out@[i]).same_as(self.files()[ids[i]])
                        && out@[i].id == ids[i],
                keyed_by_id(self.files()),
        {
            match self.cache.get(k) {
                Some(d) => {
                    out.push(d.clone());
                },
                None => {},
            }
            proof {
                ids = ids.push(*k);
            }
        }
        out
    }
}

impl Default for CsvManager {
    /// An empty cache.
    fn default() -> (r: Self)
        ensures
            r.files() == Map::<u128, CementingData>::empty(),
    {
        CsvManager::new()
    }
}

/// Storing a file makes it readable under its identifier, and leaves
/// every other session as it was.
pub proof fn lemma_read_after_insert(files: Map<u128, CementingData>, d: CementingData, other: u128)
    ensures
        files.insert(d.id, d).contains_key(d.id),
        files.insert(d.id, d)[d.id] == d,
        other != d.id ==> files.insert(d.id, d).contains_key(other) == files.contains_key(other),
        other != d.id && files.contains_key(other) ==> files.insert(d.id, d)[other] == files[other],
{
}

/// After a session is unloaded, no listed file carries its identifier:
/// listed files are exactly the stored ones, each with the identifier it is
/// stored under (`list_files`), and the unloaded one is no longer stored.
pub proof fn lemma_unloaded_not_listed(
    files: Map<u128, CementingData>,
    id: u128,
    ids: Seq<u128>,
    listed: Seq<CementingData>,
)
    requires
        ids.to_set() == files.remove(id).dom(),
        ids.len() == listed.len(),
        forall|i: int| 0 <= i < ids.len() ==> (#[trigger] listed[i]).id == ids[i],
    ensures
        forall|i: int| 0 <= i < listed.len() ==> (#[trigger] listed[i]).id != id,
{
    assert forall|i: int| 0 <= i < listed.len() implies (#[trigger] listed[i]).id != id by {
        assert(ids.to_set().contains(ids[i]));
    }
}

/// Unloading a session makes it unreadable, and leaves every other session
/// as it was.
pub proof fn lemma_read_after_unload(files: Map<u128, CementingData>, id: u128, other: u128)
    ensures
        !files.remove(id).contains_key(id),
        other != id ==> files.remove(id).contains_key(other) == files.contains_key(other),
        other != id && files.contains_key(other) ==> files.remove(id)[other] == files[other],
{
}

} // verus!
