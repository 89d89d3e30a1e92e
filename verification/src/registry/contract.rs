//! The registry: entries with their lifecycle, owner-only mutation and an
//! index of the names each owner holds.
use vstd::prelude::*;
use vstd::hash_map::StringHashMap;
use crate::common::constants::{DEFAULT_TTL_SECONDS, MAX_METADATA_URI_LENGTH};
use crate::common::seqs::{
    copy_strings, lemma_with_added, lemma_without, names_view, strings_contain, with_added,
    without, differs_from,
};
use crate::common::text::{clone_opt, opt_view, utf8_len, utf8_len_capped};
use crate::common::validation::{spec_parse_fqdn, validate_fqdn};

verus! {

#[derive(Clone, Debug, Eq, PartialEq)]
pub struct RegistryEntry {
    pub name: String,
    pub owner: String,
    pub resolver: Option<String>,
    pub target_address: Option<String>,
    pub metadata_uri: Option<String>,
    pub ttl_seconds: u64,
    pub registered_at: u64,
    pub expires_at: u64,
    pub grace_period_ends_at: u64,
    pub transfer_count: u32,
}

/// A registry entry with its texts taken as character sequences.
pub struct RegistryEntryView {
    pub name: Seq<char>,
    pub owner: Seq<char>,
    pub resolver: Option<Seq<char>>,
    pub target_address: Option<Seq<char>>,
    pub metadata_uri: Option<Seq<char>>,
    pub ttl_seconds: u64,
    pub registered_at: u64,
    pub expires_at: u64,
    pub grace_period_ends_at: u64,
    pub transfer_count: u32,
}

impl View for RegistryEntry {
    type V = RegistryEntryView;

    open spec fn view(&self) -> RegistryEntryView {
        RegistryEntryView {
            name: self.name@,
            owner: self.owner@,
            resolver: opt_view(self.resolver),
            target_address: opt_view(self.target_address),
            metadata_uri: opt_view(self.metadata_uri),
            ttl_seconds: self.ttl_seconds,
            registered_at: self.registered_at,
            expires_at: self.expires_at,
            grace_period_ends_at: self.grace_period_ends_at,
            transfer_count: self.transfer_count,
        }
    }
}

impl RegistryEntryView {
    /// Active: `now <= expires_at`.
    pub open spec fn is_active_at(self, now: u64) -> bool {
        now <= self.expires_at
    }

    /// Claimable by a new owner: `now > grace_period_ends_at`.
    pub open spec fn is_claimable_at(self, now: u64) -> bool {
        now > self.grace_period_ends_at
    }
}

#[derive(Copy, Clone, Debug, Eq, PartialEq, PartialOrd, Ord, Structural)]
pub enum RegistryError {
    AlreadyRegistered,
    NotFound,
    NotYetClaimable,
    NotActive,
    Unauthorized,
    MetadataTooLong,
    Validation,
}

pub open spec fn as_result(e: Option<RegistryError>) -> Result<(), RegistryError> {
    match e {
        Some(e) => Err(e),
        None => Ok(()),
    }
}

pub open spec fn metadata_too_long(m: Option<Seq<char>>) -> bool {
    m matches Some(v) && utf8_len(v) > MAX_METADATA_URI_LENGTH
}

/// Only the owner of an active entry may change it.
pub open spec fn owner_check(entry: RegistryEntryView, caller: Seq<char>, now: u64) -> Option<RegistryError> {
    if !entry.is_active_at(now) {
        Some(RegistryError::NotActive)
    } else if entry.owner != caller {
        Some(RegistryError::Unauthorized)
    } else {
        None
    }
}

/// The entry that a successful registration writes.
pub open spec fn new_entry_view(
    name: Seq<char>,
    owner: Seq<char>,
    target_address: Option<Seq<char>>,
    metadata_uri: Option<Seq<char>>,
    now: u64,
    expires_at: u64,
    grace_period_ends_at: u64,
) -> RegistryEntryView {
    RegistryEntryView {
        name,
        owner,
        resolver: None,
        target_address,
        metadata_uri,
        ttl_seconds: DEFAULT_TTL_SECONDS,
        registered_at: now,
        expires_at,
        grace_period_ends_at,
        transfer_count: 0,
    }
}

impl RegistryEntry {
    fn is_active_at(&self, now_unix: u64) -> (r: bool)
        ensures
            r == self@.is_active_at(now_unix),
    {
        now_unix <= self.expires_at
    }

    fn is_claimable_at(&self, now_unix: u64) -> (r: bool)
        ensures
            r == self@.is_claimable_at(now_unix),
    {
        now_unix > self.grace_period_ends_at
    }

    pub fn duplicate(&self) -> (r: RegistryEntry)
        ensures
            r == *self,
    {
        RegistryEntry {
            name: self.name.clone(),
            owner: self.owner.clone(),
            resolver: clone_opt(&self.resolver),
            target_address: clone_opt(&self.target_address),
            metadata_uri: clone_opt(&self.metadata_uri),
            ttl_seconds: self.ttl_seconds,
            registered_at: self.registered_at,
            expires_at: self.expires_at,
            grace_period_ends_at: self.grace_period_ends_at,
            transfer_count: self.transfer_count,
        }
    }
}

/// Registry state: entries by full name, and for each owner the names it holds.
pub struct RegistryContract {
    entries: StringHashMap<RegistryEntry>,
    owner_names: StringHashMap<Vec<String>>,
}

impl RegistryContract {
    pub closed spec fn entries(&self) -> Map<Seq<char>, RegistryEntryView> {
        self.entries@.map_values(|e: RegistryEntry| e@)
    }

    /// The names recorded for `owner`, in the order they were added.
    pub closed spec fn names_of(&self, owner: Seq<char>) -> Seq<Seq<char>> {
        if self.owner_names@.contains_key(owner) {
            names_view(self.owner_names@[owner]@)
        } else {
            Seq::empty()
        }
    }

    /// Each entry is stored under its own name, and the owner index lists
    /// exactly the names each owner holds, each once.
    pub closed spec fn wf(&self) -> bool {
        &&& forall|n: Seq<char>| #[trigger]
            self.entries().contains_key(n) ==> self.entries()[n].name == n
        &&& forall|n: Seq<char>| #[trigger]
            self.entries().contains_key(n) ==> self.names_of(self.entries()[n].owner).contains(n)
        &&& forall|o: Seq<char>, n: Seq<char>| #[trigger]
            self.names_of(o).contains(n) ==> self.entries().contains_key(n)
                && self.entries()[n].owner == o
        &&& forall|o: Seq<char>| #[trigger] self.names_of(o).no_duplicates()
    }

    /// The owner's name list after `name` moves from `from` (if any) to `to`.
    pub open spec fn moved_names(
        &self,
        name: Seq<char>,
        from: Option<Seq<char>>,
        to: Seq<char>,
        o: Seq<char>,
    ) -> Seq<Seq<char>> {
        let after_removal = if from == Some(o) {
            without(self.names_of(o), name)
        } else {
            self.names_of(o)
        };
        if o == to {
            with_added(after_removal, name)
        } else {
            after_removal
        }
    }

    pub open spec fn current_owner(&self, name: Seq<char>) -> Option<Seq<char>> {
        if self.entries().contains_key(name) {
            Some(self.entries()[name].owner)
        } else {
            None
        }
    }

    /// Why registering `name` would be refused, checked in order.
    pub open spec fn register_error(
        &self,
        name: Seq<char>,
        metadata_uri: Option<Seq<char>>,
        now: u64,
    ) -> Option<RegistryError> {
        if spec_parse_fqdn(name) is Err {
            Some(RegistryError::Validation)
        } else if metadata_too_long(metadata_uri) {
            Some(RegistryError::MetadataTooLong)
        } else if self.entries().contains_key(name) && self.entries()[name].is_active_at(now) {
            Some(RegistryError::AlreadyRegistered)
        } else if self.entries().contains_key(name) && !self.entries()[name].is_claimable_at(now) {
            Some(RegistryError::NotYetClaimable)
        } else {
            None
        }
    }

    /// Why a change by `caller` to `name` would be refused.
    pub open spec fn update_error(&self, name: Seq<char>, caller: Seq<char>, now: u64) -> Option<RegistryError> {
        if !self.entries().contains_key(name) {
            Some(RegistryError::NotFound)
        } else {
            owner_check(self.entries()[name], caller, now)
        }
    }

    /// What resolving `name` at `now` gives.
    pub open spec fn resolve_outcome(&self, name: Seq<char>, now: u64) -> Result<RegistryEntryView, RegistryError> {
        if spec_parse_fqdn(name) is Err {
            Err(RegistryError::Validation)
        } else if !self.entries().contains_key(name) {
            Err(RegistryError::NotFound)
        } else if !self.entries()[name].is_active_at(now) {
            Err(RegistryError::NotActive)
        } else {
            Ok(self.entries()[name])
        }
    }

    pub fn new() -> (r: Self)
        ensures
            r.wf(),
            r.entries() == Map::<Seq<char>, RegistryEntryView>::empty(),
            forall|o: Seq<char>| #[trigger] r.names_of(o) == Seq::<Seq<char>>::empty(),
    {
        let r = RegistryContract { entries: StringHashMap::new(), owner_names: StringHashMap::new() };
        assert(r.entries() =~= Map::<Seq<char>, RegistryEntryView>::empty());
        r
    }

    fn get_entry(&self, name: &str) -> (r: Result<RegistryEntry, RegistryError>)
        ensures
            match r {
                Ok(e) => self.entries().contains_key(name@) && e@ == self.entries()[name@],
                Err(err) => err == RegistryError::NotFound && !self.entries().contains_key(name@),
            },
    {
        match self.entries.get(name) {
            Some(e) => Ok(e.duplicate()),
            None => Err(RegistryError::NotFound),
        }
    }

    fn put_entry(&mut self, name: &str, entry: RegistryEntry)
        ensures
            final(self).entries() == old(self).entries().insert(name@, entry@),
            forall|o: Seq<char>| #[trigger] final(self).names_of(o) == old(self).names_of(o),
    {
        let ghost v = entry@;
        self.entries.insert(name.to_owned(), entry);
        assert(final(self).entries() =~= old(self).entries().insert(name@, v));
    }

    fn names_list(&self, owner: &str) -> (r: Vec<String>)
        ensures
            names_view(r@) == self.names_of(owner@),
    {
        match self.owner_names.get(owner) {
            Some(names) => copy_strings(names),
            None => {
                let v: Vec<String> = Vec::new();
                assert(names_view(v@) =~= Seq::<Seq<char>>::empty());
                v
            },
        }
    }

    fn add_owner_name(&mut self, owner: &str, name: &str)
        ensures
            final(self).entries() == old(self).entries(),
            forall|o: Seq<char>| #[trigger] final(self).names_of(o) == (if o == owner@ {
                with_added(old(self).names_of(o), name@)
            } else {
                old(self).names_of(o)
            }),
    {
        let mut names = self.names_list(owner);
        if !strings_contain(&names, name) {
            let ghost before = names@;
            names.push(name.to_owned());
            assert(names_view(names@) =~= names_view(before).push(name@));
            self.owner_names.insert(owner.to_owned(), names);
        }
    }

    fn remove_owner_name(&mut self, owner: &str, name: &str)
        ensures
            final(self).entries() == old(self).entries(),
            forall|o: Seq<char>| #[trigger] final(self).names_of(o) == (if o == owner@ {
                without(old(self).names_of(o), name@)
            } else {
                old(self).names_of(o)
            }),
    {
        let names = self.names_list(owner);
        let ghost all = names_view(names@);
        let mut filtered: Vec<String> = Vec::new();
        let mut i: usize = 0;
        assert(all.take(0) =~= Seq::<Seq<char>>::empty());
        assert(without(Seq::<Seq<char>>::empty(), name@) =~= Seq::<Seq<char>>::empty()) by {
            reveal(Seq::filter);
        }
        while i < names.len()
            invariant
                i <= names.len(),
                all == names_view(names@),
                names_view(filtered@) == without(all.take(i as int), name@),
            decreases names.len() - i,
        {
            let ghost before = filtered@;
            assert(all.take(i + 1) =~= all.take(i as int).push(all[i as int]));
            proof {
                all.take(i as int).lemma_filter_push(all[i as int], differs_from(name@));
            }
            if !crate::common::text::str_equals(names[i].as_str(), name) {
                filtered.push(names[i].clone());
                assert(names_view(filtered@) =~= names_view(before).push(all[i as int]));
            }
            i = i + 1;
        }
        assert(all.take(names.len() as int) =~= all);
        self.owner_names.insert(owner.to_owned(), filtered);
    }

    /// Law helper: moving one name between owners keeps the registry well formed.
    proof fn lemma_move_keeps_wf(
        before: &RegistryContract,
        after: &RegistryContract,
        name: Seq<char>,
        entry: RegistryEntryView,
    )
        requires
            before.wf(),
            entry.name == name,
            after.entries() == before.entries().insert(name, entry),
            forall|o: Seq<char>| #[trigger] after.names_of(o) == before.moved_names(
                name,
                before.current_owner(name),
                entry.owner,
                o,
            ),
        ensures
            after.wf(),
    {
        let from = before.current_owner(name);
        assert forall|o: Seq<char>| #[trigger] after.names_of(o).no_duplicates() by {
            let a = if from == Some(o) { without(before.names_of(o), name) } else { before.names_of(o) };
            lemma_without(before.names_of(o), name);
            lemma_with_added(a, name);
        }
        assert forall|o: Seq<char>, n: Seq<char>| #[trigger] after.names_of(o).contains(n) implies
            after.entries().contains_key(n) && after.entries()[n].owner == o by {
            let a = if from == Some(o) { without(before.names_of(o), name) } else { before.names_of(o) };
            lemma_without(before.names_of(o), name);
            lemma_with_added(a, name);
            if n != name {
                assert(a.contains(n));
                assert(before.names_of(o).contains(n));
            }
        }
        assert forall|n: Seq<char>| #[trigger] after.entries().contains_key(n) implies
            after.names_of(after.entries()[n].owner).contains(n) by {
            let o = after.entries()[n].owner;
            let a = if from == Some(o) { without(before.names_of(o), name) } else { before.names_of(o) };
            lemma_without(before.names_of(o), name);
            lemma_with_added(a, name);
            if n != name {
                assert(before.entries().contains_key(n));
                assert(before.names_of(o).contains(n));
            }
        }
    }

    /// Law helper: changing an entry's fields but not its owner keeps the registry well formed.
    proof fn lemma_update_keeps_wf(
        before: &RegistryContract,
        after: &RegistryContract,
        name: Seq<char>,
        entry: RegistryEntryView,
    )
        requires
            before.wf(),
            before.entries().contains_key(name),
            entry.name == name,
            entry.owner == before.entries()[name].owner,
            after.entries() == before.entries().insert(name, entry),
            forall|o: Seq<char>| #[trigger] after.names_of(o) == before.names_of(o),
        ensures
            after.wf(),
    {
        assert forall|n: Seq<char>| #[trigger] after.entries().contains_key(n) implies
            after.names_of(after.entries()[n].owner).contains(n) by {
            assert(before.entries().contains_key(n));
        }
    }

    /// Registers `name` to `owner`, replacing an earlier entry only once it is claimable.
    pub fn register(
        &mut self,
        name: &str,
        owner: &str,
        target_address: Option<String>,
        metadata_uri: Option<String>,
        now_unix: u64,
        expires_at: u64,
        grace_period_ends_at: u64,
    ) -> (r: Result<(), RegistryError>)
        requires
            old(self).wf(),
        ensures
            final(self).wf(),
            r == as_result(old(self).register_error(name@, opt_view(metadata_uri), now_unix)),
            r is Err ==> *final(self) == *old(self),
            r is Ok ==> final(self).entries() == old(self).entries().insert(
                name@,
                new_entry_view(
                    name@,
                    owner@,
                    opt_view(target_address),
                    opt_view(metadata_uri),
                    now_unix,
                    expires_at,
                    grace_period_ends_at,
                ),
            ),
            r is Ok ==> forall|o: Seq<char>| #[trigger] final(self).names_of(o) == old(self).moved_names(
                name@,
                old(self).current_owner(name@),
                owner@,
                o,
            ),
            r is Ok ==> {
                let e = final(self).entries()[name@];
                &&& final(self).entries().contains_key(name@)
                &&& e.name == name@
                &&& e.owner == owner@
                &&& e.resolver is None
                &&& e.target_address == opt_view(target_address)
                &&& e.metadata_uri == opt_view(metadata_uri)
                &&& e.ttl_seconds == DEFAULT_TTL_SECONDS
                &&& e.registered_at == now_unix
                &&& e.expires_at == expires_at
                &&& e.grace_period_ends_at == grace_period_ends_at
                &&& e.transfer_count == 0
            },
            r is Ok ==> final(self).names_of(owner@).contains(name@),
            r is Ok ==> !old(self).entries().contains_key(name@) || now_unix
                > old(self).entries()[name@].grace_period_ends_at,
    {
        match validate_fqdn(name) {
            Err(_) => {
                return Err(RegistryError::Validation);
            },
            Ok(()) => {},
        }
        match validate_metadata(&metadata_uri) {
            Err(e) => {
                return Err(e);
            },
            Ok(()) => {},
        }
        let ghost start = *self;
        let prior_owner = match self.entries.get(name) {
            Some(existing) => {
                if existing.is_active_at(now_unix) {
                    return Err(RegistryError::AlreadyRegistered);
                }
                if !existing.is_claimable_at(now_unix) {
                    return Err(RegistryError::NotYetClaimable);
                }
                Some(existing.owner.clone())
            },
            None => None,
        };
        assert(match prior_owner {
            Some(p) => start.current_owner(name@) == Some(p@),
            None => start.current_owner(name@) is None,
        });
        match &prior_owner {
            Some(previous) => {
                self.remove_owner_name(previous.as_str(), name);
                let ghost removed = *self;
                self.entries.remove(name);
                assert(forall|o: Seq<char>| #[trigger] self.names_of(o) == removed.names_of(o));
            },
            None => {},
        }
        let ghost mid = *self;
        assert forall|o: Seq<char>| #[trigger] mid.names_of(o) == (if start.current_owner(name@) == Some(o) {
            without(start.names_of(o), name@)
        } else {
            start.names_of(o)
        }) by {
            match prior_owner {
                Some(p) => {
                    assert(start.current_owner(name@) == Some(p@));
                },
                None => {
                    assert(mid == start);
                },
            }
        }
        let entry = RegistryEntry {
            name: name.to_owned(),
            owner: owner.to_owned(),
            resolver: None,
            target_address,
            metadata_uri,
            ttl_seconds: DEFAULT_TTL_SECONDS,
            registered_at: now_unix,
            expires_at,
            grace_period_ends_at,
            transfer_count: 0,
        };
        let ghost v = entry@;
        self.entries.insert(name.to_owned(), entry);
        let ghost ins = *self;
        assert(forall|o: Seq<char>| #[trigger] ins.names_of(o) == mid.names_of(o));
        self.add_owner_name(owner, name);
        proof {
            assert(self.entries() =~= start.entries().insert(name@, v));
            assert forall|o: Seq<char>| #[trigger] self.names_of(o) == start.moved_names(
                name@,
                start.current_owner(name@),
                owner@,
                o,
            ) by {
                assert(ins.names_of(o) == mid.names_of(o));
            }
            RegistryContract::lemma_move_keeps_wf(&start, self, name@, v);
            assert(self.entries().contains_key(name@));
            assert(self.names_of(self.entries()[name@].owner).contains(name@));
        }
        Ok(())
    }

    /// The entry of an active name.
    pub fn resolve(&self, name: &str, now_unix: u64) -> (r: Result<RegistryEntry, RegistryError>)
        ensures
            r is Ok <==> self.resolve_outcome(name@, now_unix) is Ok,
            r matches Ok(e) ==> self.resolve_outcome(name@, now_unix) == Ok::<RegistryEntryView, RegistryError>(e@),
            r matches Err(e) ==> self.resolve_outcome(name@, now_unix) == Err::<RegistryEntryView, RegistryError>(e),
    {
        match validate_fqdn(name) {
            Err(_) => {
                return Err(RegistryError::Validation);
            },
            Ok(()) => {},
        }
        let entry = match self.get_entry(name) {
            Ok(e) => e,
            Err(e) => {
                return Err(e);
            },
        };
        if !entry.is_active_at(now_unix) {
            return Err(RegistryError::NotActive);
        }
        Ok(entry)
    }

    /// Hands an active name from its owner `caller` to `new_owner`.
    pub fn transfer(&mut self, name: &str, caller: &str, new_owner: &str, now_unix: u64) -> (r: Result<
        (),
        RegistryError,
    >)
        requires
            old(self).wf(),
        ensures
            final(self).wf(),
            r == as_result(old(self).update_error(name@, caller@, now_unix)),
            r is Err ==> *final(self) == *old(self),
            r is Ok ==> final(self).entries() == old(self).entries().insert(
                name@,
                RegistryEntryView {
                    owner: new_owner@,
                    transfer_count: old(self).entries()[name@].transfer_count.saturating_add(1),
                    ..old(self).entries()[name@]
                },
            ),
            r is Ok ==> forall|o: Seq<char>| #[trigger] final(self).names_of(o) == old(self).moved_names(
                name@,
                old(self).current_owner(name@),
                new_owner@,
                o,
            ),
            r is Ok ==> final(self).entries()[name@].owner == new_owner@
                && final(self).names_of(new_owner@).contains(name@)
                && (old(self).entries()[name@].owner != new_owner@ ==> !final(self).names_of(
                old(self).entries()[name@].owner,
            ).contains(name@)),
            r is Ok ==> old(self).entries()[name@].owner == caller@ && now_unix <= old(self).entries()[name@].expires_at,
    {
        let ghost start = *self;
        let mut entry = match self.get_entry(name) {
            Ok(e) => e,
            Err(e) => {
                return Err(e);
            },
        };
        match ensure_owner(&entry, caller, now_unix) {
            Err(e) => {
                return Err(e);
            },
            Ok(()) => {},
        }
        let old_owner = entry.owner.clone();
        entry.owner = new_owner.to_owned();
        entry.transfer_count = entry.transfer_count.saturating_add(1);
        let ghost v = entry@;
        self.put_entry(name, entry);
        self.remove_owner_name(old_owner.as_str(), name);
        self.add_owner_name(new_owner, name);
        proof {
            assert(v == RegistryEntryView {
                owner: new_owner@,
                transfer_count: start.entries()[name@].transfer_count.saturating_add(1),
                ..start.entries()[name@]
            });
            assert forall|o: Seq<char>| #[trigger] self.names_of(o) == start.moved_names(
                name@,
                start.current_owner(name@),
                new_owner@,
                o,
            ) by {}
            RegistryContract::lemma_move_keeps_wf(&start, self, name@, v);
            assert(self.entries().contains_key(name@));
            assert(self.names_of(self.entries()[name@].owner).contains(name@));
            lemma_owner_index(self, start.entries()[name@].owner, name@);
        }
        Ok(())
    }

    pub fn set_resolver(&mut self, name: &str, caller: &str, resolver: Option<String>, now_unix: u64) -> (r: Result<
        (),
        RegistryError,
    >)
        requires
            old(self).wf(),
        ensures
            final(self).wf(),
            r == as_result(old(self).update_error(name@, caller@, now_unix)),
            r is Err ==> *final(self) == *old(self),
            r is Ok ==> final(self).entries() == old(self).entries().insert(
                name@,
                RegistryEntryView { resolver: opt_view(resolver), ..old(self).entries()[name@] },
            ),
            forall|o: Seq<char>| #[trigger] final(self).names_of(o) == old(self).names_of(o),
    {
        let ghost start = *self;
        let mut entry = match self.get_entry(name) {
            Ok(e) => e,
            Err(e) => {
                return Err(e);
            },
        };
        match ensure_owner(&entry, caller, now_unix) {
            Err(e) => {
                return Err(e);
            },
            Ok(()) => {},
        }
        entry.resolver = resolver;
        let ghost v = entry@;
        self.put_entry(name, entry);
        proof {
            RegistryContract::lemma_update_keeps_wf(&start, self, name@, v);
        }
        Ok(())
    }

    pub fn set_target_address(
        &mut self,
        name: &str,
        caller: &str,
        target_address: Option<String>,
        now_unix: u64,
    ) -> (r: Result<(), RegistryError>)
        requires
            old(self).wf(),
        ensures
            final(self).wf(),
            r == as_result(old(self).update_error(name@, caller@, now_unix)),
            r is Err ==> *final(self) == *old(self),
            r is Ok ==> final(self).entries() == old(self).entries().insert(
                name@,
                RegistryEntryView { target_address: opt_view(target_address), ..old(self).entries()[name@] },
            ),
            forall|o: Seq<char>| #[trigger] final(self).names_of(o) == old(self).names_of(o),
    {
        let ghost start = *self;
        let mut entry = match self.get_entry(name) {
            Ok(e) => e,
            Err(e) => {
                return Err(e);
            },
        };
        match ensure_owner(&entry, caller, now_unix) {
            Err(e) => {
                return Err(e);
            },
            Ok(()) => {},
        }
        entry.target_address = target_address;
        let ghost v = entry@;
        self.put_entry(name, entry);
        proof {
            RegistryContract::lemma_update_keeps_wf(&start, self, name@, v);
        }
        Ok(())
    }

    pub fn set_metadata(&mut self, name: &str, caller: &str, metadata_uri: Option<String>, now_unix: u64) -> (r: Result<
        (),
        RegistryError,
    >)
        requires
            old(self).wf(),
        ensures
            final(self).wf(),
            r == (if metadata_too_long(opt_view(metadata_uri)) {
                Err(RegistryError::MetadataTooLong)
            } else {
                as_result(old(self).update_error(name@, caller@, now_unix))
            }),
            r is Ok ==> (metadata_uri is None || utf8_len(opt_view(metadata_uri)->0) <= MAX_METADATA_URI_LENGTH),
            r is Ok ==> final(self).entries()[name@].metadata_uri == opt_view(metadata_uri)
                && final(self).entries()[name@].owner == caller@,
            r is Err ==> *final(self) == *old(self),
            r is Ok ==> final(self).entries() == old(self).entries().insert(
                name@,
                RegistryEntryView { metadata_uri: opt_view(metadata_uri), ..old(self).entries()[name@] },
            ),
            forall|o: Seq<char>| #[trigger] final(self).names_of(o) == old(self).names_of(o),
    {
        match validate_metadata(&metadata_uri) {
            Err(e) => {
                return Err(e);
            },
            Ok(()) => {},
        }
        let ghost start = *self;
        let mut entry = match self.get_entry(name) {
            Ok(e) => e,
            Err(e) => {
                return Err(e);
            },
        };
        match ensure_owner(&entry, caller, now_unix) {
            Err(e) => {
                return Err(e);
            },
            Ok(()) => {},
        }
        entry.metadata_uri = metadata_uri;
        let ghost v = entry@;
        self.put_entry(name, entry);
        proof {
            RegistryContract::lemma_update_keeps_wf(&start, self, name@, v);
        }
        Ok(())
    }

    /// Sets a new expiry and grace period end on an active name, by its owner.
    pub fn renew(
        &mut self,
        name: &str,
        caller: &str,
        expires_at: u64,
        grace_period_ends_at: u64,
        now_unix: u64,
    ) -> (r: Result<(), RegistryError>)
        requires
            old(self).wf(),
        ensures
            final(self).wf(),
            r == as_result(old(self).update_error(name@, caller@, now_unix)),
            r is Err ==> *final(self) == *old(self),
            r is Ok ==> final(self).entries() == old(self).entries().insert(
                name@,
                RegistryEntryView { expires_at, grace_period_ends_at, ..old(self).entries()[name@] },
            ),
            forall|o: Seq<char>| #[trigger] final(self).names_of(o) == old(self).names_of(o),
    {
        let ghost start = *self;
        let mut entry = match self.get_entry(name) {
            Ok(e) => e,
            Err(e) => {
                return Err(e);
            },
        };
        match ensure_owner(&entry, caller, now_unix) {
            Err(e) => {
                return Err(e);
            },
            Ok(()) => {},
        }
        entry.expires_at = expires_at;
        entry.grace_period_ends_at = grace_period_ends_at;
        let ghost v = entry@;
        self.put_entry(name, entry);
        proof {
            RegistryContract::lemma_update_keeps_wf(&start, self, name@, v);
        }
        Ok(())
    }

    /// The names recorded for `owner`.
    pub fn names_for_owner(&self, owner: &str) -> (r: Vec<String>)
        ensures
            names_view(r@) == self.names_of(owner@),
    {
        self.names_list(owner)
    }
}

/// Law: for an entry whose grace period ends no earlier than its expiry, every
/// moment falls in exactly one phase: active, in grace, or claimable.
pub proof fn lemma_lifecycle_phases(entry: RegistryEntryView, now: u64)
    requires
        entry.expires_at <= entry.grace_period_ends_at,
    ensures
        entry.is_active_at(now) ==> !entry.is_claimable_at(now),
        !entry.is_active_at(now) && !entry.is_claimable_at(now) <==> (entry.expires_at < now
            && now <= entry.grace_period_ends_at),
        entry.is_active_at(now) || entry.is_claimable_at(now) || (entry.expires_at < now
            && now <= entry.grace_period_ends_at),
{
}

/// Law: in a well-formed registry the owner index lists a name for an owner
/// exactly when that owner holds the name's entry.
pub proof fn lemma_owner_index(registry: &RegistryContract, owner: Seq<char>, name: Seq<char>)
    requires
        registry.wf(),
    ensures
        registry.names_of(owner).contains(name) <==> (registry.entries().contains_key(name)
            && registry.entries()[name].owner == owner),
{
    if registry.entries().contains_key(name) && registry.entries()[name].owner == owner {
        assert(registry.names_of(registry.entries()[name].owner).contains(name));
    }
}

/// Law: after a successful registration, resolving the name at any time up to
/// its expiry gives back exactly what was registered: the owner, target
/// address, metadata and lifecycle given, no resolver, the default TTL and no
/// transfers yet.
pub proof fn lemma_resolve_after_register(
    before: &RegistryContract,
    after: &RegistryContract,
    name: Seq<char>,
    owner: Seq<char>,
    target_address: Option<Seq<char>>,
    metadata_uri: Option<Seq<char>>,
    now: u64,
    expires_at: u64,
    grace_period_ends_at: u64,
    at: u64,
)
    requires
        before.register_error(name, metadata_uri, now) is None,
        after.entries() == before.entries().insert(
            name,
            new_entry_view(name, owner, target_address, metadata_uri, now, expires_at, grace_period_ends_at),
        ),
        at <= expires_at,
    ensures
        after.resolve_outcome(name, at) is Ok,
        ({
            let e = after.resolve_outcome(name, at)->Ok_0;
            &&& e.name == name
            &&& e.owner == owner
            &&& e.resolver is None
            &&& e.target_address == target_address
            &&& e.metadata_uri == metadata_uri
            &&& e.ttl_seconds == DEFAULT_TTL_SECONDS
            &&& e.registered_at == now
            &&& e.expires_at == expires_at
            &&& e.grace_period_ends_at == grace_period_ends_at
            &&& e.transfer_count == 0
        }),
{
}

/// Law: registration succeeds exactly for a well-formed name with acceptable
/// metadata that is either unregistered or past the end of its grace period.
pub proof fn lemma_register_accepts(
    registry: &RegistryContract,
    name: Seq<char>,
    metadata_uri: Option<Seq<char>>,
    now: u64,
)
    ensures
        registry.register_error(name, metadata_uri, now) is None <==> {
            &&& spec_parse_fqdn(name) is Ok
            &&& (metadata_uri is None || utf8_len(metadata_uri->0) <= MAX_METADATA_URI_LENGTH)
            &&& (!registry.entries().contains_key(name) || (now > registry.entries()[name].expires_at
                && now > registry.entries()[name].grace_period_ends_at))
        },
{
}

/// Law: only the owner may change an entry, and only while it is active
/// (`now <= expires_at`); that is the whole condition.
pub proof fn lemma_update_requires_active_owner(
    registry: &RegistryContract,
    name: Seq<char>,
    caller: Seq<char>,
    now: u64,
)
    ensures
        registry.update_error(name, caller, now) is None <==> {
            &&& registry.entries().contains_key(name)
            &&& registry.entries()[name].owner == caller
            &&& now <= registry.entries()[name].expires_at
        },
{
}

/// Law: resolving gives the stored entry exactly when the name is well formed,
/// registered and active.
pub proof fn lemma_resolve_gives_active_entry(registry: &RegistryContract, name: Seq<char>, now: u64)
    ensures
        registry.resolve_outcome(name, now) is Ok <==> {
            &&& spec_parse_fqdn(name) is Ok
            &&& registry.entries().contains_key(name)
            &&& now <= registry.entries()[name].expires_at
        },
        registry.resolve_outcome(name, now) is Ok ==> registry.resolve_outcome(name, now)->Ok_0
            == registry.entries()[name],
{
}

/// Law: after a successful transfer, resolving the name while it is active
/// shows the new owner, with the rest of the entry kept.
pub proof fn lemma_resolve_after_transfer(
    before: &RegistryContract,
    after: &RegistryContract,
    name: Seq<char>,
    caller: Seq<char>,
    new_owner: Seq<char>,
    now: u64,
    at: u64,
)
    requires
        before.update_error(name, caller, now) is None,
        spec_parse_fqdn(name) is Ok,
        after.entries() == before.entries().insert(
            name,
            RegistryEntryView {
                owner: new_owner,
                transfer_count: before.entries()[name].transfer_count.saturating_add(1),
                ..before.entries()[name]
            },
        ),
        at <= before.entries()[name].expires_at,
    ensures
        after.resolve_outcome(name, at) is Ok,
        after.resolve_outcome(name, at)->Ok_0.owner == new_owner,
        after.resolve_outcome(name, at)->Ok_0.expires_at == before.entries()[name].expires_at,
        after.resolve_outcome(name, at)->Ok_0.target_address == before.entries()[name].target_address,
{
}

/// Law: once a name has been transferred away, its previous owner can no
/// longer change it.
pub proof fn lemma_previous_owner_locked_out(
    before: &RegistryContract,
    after: &RegistryContract,
    name: Seq<char>,
    caller: Seq<char>,
    new_owner: Seq<char>,
    now: u64,
    at: u64,
)
    requires
        before.update_error(name, caller, now) is None,
        after.entries() == before.entries().insert(
            name,
            RegistryEntryView {
                owner: new_owner,
                transfer_count: before.entries()[name].transfer_count.saturating_add(1),
                ..before.entries()[name]
            },
        ),
        caller != new_owner,
    ensures
        after.update_error(name, caller, at) is Some,
{
}

/// Law: a registered name that is not yet claimable cannot be registered again,
/// by anyone.
pub proof fn lemma_register_refused_until_claimable(
    registry: &RegistryContract,
    name: Seq<char>,
    metadata_uri: Option<Seq<char>>,
    now: u64,
)
    requires
        registry.entries().contains_key(name),
        !registry.entries()[name].is_claimable_at(now),
    ensures
        registry.register_error(name, metadata_uri, now) is Some,
{
}

impl Default for RegistryContract {
    fn default() -> (r: Self)
        ensures
            r.wf(),
            r.entries() == Map::<Seq<char>, RegistryEntryView>::empty(),
            forall|o: Seq<char>| #[trigger] r.names_of(o) == Seq::<Seq<char>>::empty(),
    {
        RegistryContract::new()
    }
}

fn validate_metadata(metadata_uri: &Option<String>) -> (r: Result<(), RegistryError>)
    ensures
        r == (if metadata_too_long(opt_view(*metadata_uri)) {
            Err(RegistryError::MetadataTooLong)
        } else {
            Ok(())
        }),
{
    match metadata_uri {
        Some(value) => {
            if utf8_len_capped(value.as_str(), MAX_METADATA_URI_LENGTH) > MAX_METADATA_URI_LENGTH {
                return Err(RegistryError::MetadataTooLong);
            }
        },
        None => {},
    }
    Ok(())
}

fn ensure_owner(entry: &RegistryEntry, caller: &str, now_unix: u64) -> (r: Result<(), RegistryError>)
    ensures
        r == as_result(owner_check(entry@, caller@, now_unix)),
{
    if !entry.is_active_at(now_unix) {
        return Err(RegistryError::NotActive);
    }
    if !crate::common::text::str_equals(entry.owner.as_str(), caller) {
        return Err(RegistryError::Unauthorized);
    }
    Ok(())
}

} // verus!
