//! An in-memory table of name records keyed by full name.
use vstd::prelude::*;
use vstd::hash_map::StringHashMap;
use crate::common::types::{NameRecord, NameRecordView, fqdn_of};
use crate::registry::errors::RegistryError;

verus! {

#[derive(Debug, Clone, PartialEq, Eq)]
pub struct RegistryEntry {
    pub record: NameRecord,
}

pub struct RegistryStorage {
    entries: StringHashMap<RegistryEntry>,
}

impl RegistryStorage {
    /// Stored records by full name.
    pub closed spec fn records(&self) -> Map<Seq<char>, NameRecordView> {
        self.entries@.map_values(|e: RegistryEntry| e.record@)
    }

    pub fn new() -> (r: Self)
        ensures
            r.records() == Map::<Seq<char>, NameRecordView>::empty(),
    {
        let r = RegistryStorage { entries: StringHashMap::new() };
        assert(r.records() =~= Map::<Seq<char>, NameRecordView>::empty());
        r
    }

    /// Stores an entry under its full name, unless that name is taken.
    pub fn insert(&mut self, entry: RegistryEntry) -> (r: Result<(), RegistryError>)
        ensures
            ({
                let key = fqdn_of(entry.record.label@, entry.record.tld);
                &&& r == (if old(self).records().contains_key(key) {
                    Err(RegistryError::AlreadyRegistered)
                } else {
                    Ok(())
                })
                &&& r is Err ==> *final(self) == *old(self)
                &&& r is Ok ==> final(self).records() == old(self).records().insert(key, entry.record@)
            }),
    {
        let key = entry.record.fqdn();
        if self.entries.contains_key(key.as_str()) {
            return Err(RegistryError::AlreadyRegistered);
        }
        let ghost v = entry.record@;
        self.entries.insert(key, entry);
        assert(self.records() =~= old(self).records().insert(fqdn_of(v.label, v.tld), v));
        Ok(())
    }

    pub fn get(&self, name: &str) -> (r: Option<&RegistryEntry>)
        ensures
            match r {
                Some(e) => self.records().contains_key(name@) && e.record@ == self.records()[name@],
                None => !self.records().contains_key(name@),
            },
    {
        self.entries.get(name)
    }

    /// Sets a new owner on a stored record.
    pub fn transfer(&mut self, name: &str, new_owner: String) -> (r: Result<(), RegistryError>)
        ensures
            r == (if old(self).records().contains_key(name@) { Ok(()) } else { Err(RegistryError::NotFound) }),
            r is Err ==> *final(self) == *old(self),
            r is Ok ==> final(self).records() == old(self).records().insert(
                name@,
                NameRecordView { owner: new_owner@, ..old(self).records()[name@] },
            ),
    {
        let mut entry = match self.entries.get(name) {
            Some(e) => RegistryEntry { record: e.record.duplicate() },
            None => {
                return Err(RegistryError::NotFound);
            },
        };
        entry.record.owner = new_owner;
        let ghost v = entry.record@;
        self.entries.insert(name.to_owned(), entry);
        assert(self.records() =~= old(self).records().insert(name@, v));
        Ok(())
    }
}

impl Default for RegistryStorage {
    fn default() -> (r: Self)
        ensures
            r.records() == Map::<Seq<char>, NameRecordView>::empty(),
    {
        RegistryStorage::new()
    }
}

} // verus!
