//! Parents, their delegated controllers, and the subdomains issued under them.
use vstd::prelude::*;
use vstd::hash_map::StringHashMap;
use crate::common::errors::{CommonError, common_error_message};
use crate::common::seqs::{copy_strings, names_view, strings_contain};
use crate::common::text::{is_blank, str_equals};
use crate::common::validation::{label_error, parse_fqdn, spec_parse_fqdn, validate_owner};
use crate::subdomain::manager::{build_subdomain, subdomain_name};

verus! {

#[derive(Debug, Clone, PartialEq, Eq)]
pub struct ParentDomain {
    pub owner: String,
    /// Delegated controllers, each listed once.
    pub controllers: Vec<String>,
}

pub struct ParentDomainView {
    pub owner: Seq<char>,
    pub controllers: Set<Seq<char>>,
}

impl View for ParentDomain {
    type V = ParentDomainView;

    open spec fn view(&self) -> ParentDomainView {
        ParentDomainView { owner: self.owner@, controllers: names_view(self.controllers@).to_set() }
    }
}

impl ParentDomain {
    /// The owner or any delegated controller may issue subdomains.
    pub open spec fn may_issue(self, caller: Seq<char>) -> bool {
        self@.owner == caller || self@.controllers.contains(caller)
    }

    pub fn duplicate(&self) -> (r: ParentDomain)
        ensures
            r@ == self@,
    {
        ParentDomain { owner: self.owner.clone(), controllers: copy_strings(&self.controllers) }
    }
}

#[derive(Debug, Clone, PartialEq, Eq)]
pub struct SubdomainRecord {
    pub parent: String,
    pub owner: String,
    pub created_at: u64,
}

pub struct SubdomainRecordView {
    pub parent: Seq<char>,
    pub owner: Seq<char>,
    pub created_at: u64,
}

impl View for SubdomainRecord {
    type V = SubdomainRecordView;

    open spec fn view(&self) -> SubdomainRecordView {
        SubdomainRecordView { parent: self.parent@, owner: self.owner@, created_at: self.created_at }
    }
}

#[derive(Debug, Clone, Copy, PartialEq, Eq, Structural)]
pub enum SubdomainError {
    Validation(CommonError),
    ParentNotFound,
    AlreadyExists,
    NotFound,
    Unauthorized,
}

pub open spec fn subdomain_error_message(e: SubdomainError) -> Seq<char> {
    match e {
        SubdomainError::Validation(inner) => common_error_message(inner),
        SubdomainError::ParentNotFound => "parent domain was not registered for subdomain issuance"@,
        SubdomainError::AlreadyExists => "subdomain already exists"@,
        SubdomainError::NotFound => "subdomain was not found"@,
        SubdomainError::Unauthorized => "caller is not authorized for this parent domain"@,
    }
}

impl SubdomainError {
    /// The description a user is shown for this error.
    pub fn message(&self) -> (r: &'static str)
        ensures
            r@ == subdomain_error_message(*self),
    {
        match self {
            SubdomainError::Validation(inner) => inner.message(),
            SubdomainError::ParentNotFound => "parent domain was not registered for subdomain issuance",
            SubdomainError::AlreadyExists => "subdomain already exists",
            SubdomainError::NotFound => "subdomain was not found",
            SubdomainError::Unauthorized => "caller is not authorized for this parent domain",
        }
    }
}

impl From<CommonError> for SubdomainError {
    fn from(value: CommonError) -> (r: Self)
        ensures
            r == SubdomainError::Validation(value),
    {
        SubdomainError::Validation(value)
    }
}

impl vstd::std_specs::convert::FromSpecImpl<CommonError> for SubdomainError {
    open spec fn obeys_from_spec() -> bool {
        true
    }

    open spec fn from_spec(v: CommonError) -> Self {
        SubdomainError::Validation(v)
    }
}

pub open spec fn as_result(e: Option<SubdomainError>) -> Result<(), SubdomainError> {
    match e {
        Some(e) => Err(e),
        None => Ok(()),
    }
}

/// Parents registered for issuance and the subdomains issued, both by full name.
pub struct SubdomainContract {
    parents: StringHashMap<ParentDomain>,
    subdomains: StringHashMap<SubdomainRecord>,
}

impl SubdomainContract {
    pub closed spec fn parents(&self) -> Map<Seq<char>, ParentDomainView> {
        self.parents@.map_values(|p: ParentDomain| p@)
    }

    pub closed spec fn subdomains(&self) -> Map<Seq<char>, SubdomainRecordView> {
        self.subdomains@.map_values(|r: SubdomainRecord| r@)
    }

    pub open spec fn register_parent_error(&self, parent: Seq<char>, owner: Seq<char>) -> Option<SubdomainError> {
        if spec_parse_fqdn(parent) is Err {
            Some(SubdomainError::Validation(spec_parse_fqdn(parent)->Err_0))
        } else if is_blank(owner) {
            Some(SubdomainError::Validation(CommonError::EmptyOwner))
        } else {
            None
        }
    }

    pub open spec fn add_controller_error(
        &self,
        parent: Seq<char>,
        caller: Seq<char>,
        controller: Seq<char>,
    ) -> Option<SubdomainError> {
        if is_blank(controller) {
            Some(SubdomainError::Validation(CommonError::EmptyOwner))
        } else if !self.parents().contains_key(parent) {
            Some(SubdomainError::ParentNotFound)
        } else if self.parents()[parent].owner != caller {
            Some(SubdomainError::Unauthorized)
        } else {
            None
        }
    }

    pub open spec fn create_error(
        &self,
        label: Seq<char>,
        parent: Seq<char>,
        caller: Seq<char>,
        owner: Seq<char>,
    ) -> Option<SubdomainError> {
        if is_blank(owner) {
            Some(SubdomainError::Validation(CommonError::EmptyOwner))
        } else if !self.parents().contains_key(parent) {
            Some(SubdomainError::ParentNotFound)
        } else if self.parents()[parent].owner != caller && !self.parents()[parent].controllers.contains(caller) {
            Some(SubdomainError::Unauthorized)
        } else if label_error(label) is Some {
            Some(SubdomainError::Validation(label_error(label)->0))
        } else if self.subdomains().contains_key(subdomain_name(label, parent)) {
            Some(SubdomainError::AlreadyExists)
        } else {
            None
        }
    }

    pub open spec fn transfer_error(&self, fqdn: Seq<char>, caller: Seq<char>, new_owner: Seq<char>) -> Option<SubdomainError> {
        if is_blank(new_owner) {
            Some(SubdomainError::Validation(CommonError::EmptyOwner))
        } else if !self.subdomains().contains_key(fqdn) {
            Some(SubdomainError::NotFound)
        } else if self.subdomains()[fqdn].owner != caller {
            Some(SubdomainError::Unauthorized)
        } else {
            None
        }
    }

    pub fn new() -> (r: Self)
        ensures
            r.parents() == Map::<Seq<char>, ParentDomainView>::empty(),
            r.subdomains() == Map::<Seq<char>, SubdomainRecordView>::empty(),
    {
        let r = SubdomainContract { parents: StringHashMap::new(), subdomains: StringHashMap::new() };
        assert(r.parents() =~= Map::<Seq<char>, ParentDomainView>::empty());
        assert(r.subdomains() =~= Map::<Seq<char>, SubdomainRecordView>::empty());
        r
    }

    /// Registers `parent` for subdomain issuance by `owner`, with no controllers.
    pub fn register_parent(&mut self, parent: &str, owner: &str) -> (r: Result<(), SubdomainError>)
        ensures
            r == as_result(old(self).register_parent_error(parent@, owner@)),
            r is Err ==> *final(self) == *old(self),
            r is Ok ==> final(self).parents() == old(self).parents().insert(
                parent@,
                ParentDomainView { owner: owner@, controllers: Set::empty() },
            ),
            final(self).subdomains() == old(self).subdomains(),
    {
        match parse_fqdn(parent) {
            Err(e) => {
                return Err(SubdomainError::from(e));
            },
            Ok(_) => {},
        }
        match validate_owner(owner) {
            Err(e) => {
                return Err(SubdomainError::from(e));
            },
            Ok(()) => {},
        }
        let record = ParentDomain { owner: owner.to_owned(), controllers: Vec::new() };
        let ghost v = record@;
        assert(v.controllers =~= Set::<Seq<char>>::empty());
        self.parents.insert(parent.to_owned(), record);
        assert(self.parents() =~= old(self).parents().insert(parent@, v));
        assert(self.subdomains() =~= old(self).subdomains());
        Ok(())
    }

    /// Lets the parent's owner delegate issuance to `controller`.
    pub fn add_controller(&mut self, parent: &str, caller: &str, controller: &str) -> (r: Result<
        (),
        SubdomainError,
    >)
        ensures
            r == as_result(old(self).add_controller_error(parent@, caller@, controller@)),
            r is Err ==> *final(self) == *old(self),
            r is Ok ==> final(self).parents() == old(self).parents().insert(
                parent@,
                ParentDomainView {
                    controllers: old(self).parents()[parent@].controllers.insert(controller@),
                    ..old(self).parents()[parent@]
                },
            ),
            final(self).subdomains() == old(self).subdomains(),
    {
        match validate_owner(controller) {
            Err(e) => {
                return Err(SubdomainError::from(e));
            },
            Ok(()) => {},
        }
        let mut record = match self.parents.get(parent) {
            Some(p) => p.duplicate(),
            None => {
                return Err(SubdomainError::ParentNotFound);
            },
        };
        if !str_equals(record.owner.as_str(), caller) {
            return Err(SubdomainError::Unauthorized);
        }
        let ghost before = record@;
        if !strings_contain(&record.controllers, controller) {
            let ghost prev = record.controllers@;
            record.controllers.push(controller.to_owned());
            assert(names_view(record.controllers@) =~= names_view(prev).push(controller@));
            proof {
                names_view(prev).lemma_push_to_set_commute(controller@);
            }
        } else {
            assert(before.controllers.contains(controller@));
            assert(before.controllers =~= before.controllers.insert(controller@));
        }
        let ghost v = record@;
        self.parents.insert(parent.to_owned(), record);
        assert(self.parents() =~= old(self).parents().insert(parent@, v));
        assert(self.subdomains() =~= old(self).subdomains());
        Ok(())
    }

    /// Issues `label.parent` to `owner`, on behalf of the parent's owner or a controller.
    pub fn create(&mut self, label: &str, parent: &str, caller: &str, owner: &str, now_unix: u64) -> (r: Result<
        String,
        SubdomainError,
    >)
        ensures
            r is Ok <==> old(self).create_error(label@, parent@, caller@, owner@) is None,
            r matches Err(e) ==> old(self).create_error(label@, parent@, caller@, owner@) == Some(e),
            r is Err ==> *final(self) == *old(self),
            r matches Ok(name) ==> name@ == subdomain_name(label@, parent@),
            r matches Ok(name) ==> name@ == label@ + seq!['.'] + parent@,
            r is Ok ==> final(self).subdomains().contains_key(label@ + seq!['.'] + parent@)
                && final(self).subdomains()[label@ + seq!['.'] + parent@].owner == owner@
                && final(self).subdomains()[label@ + seq!['.'] + parent@].parent == parent@
                && final(self).subdomains()[label@ + seq!['.'] + parent@].created_at == now_unix,
            r is Ok ==> !old(self).subdomains().contains_key(label@ + seq!['.'] + parent@),
            r is Ok ==> final(self).subdomains() == old(self).subdomains().insert(
                subdomain_name(label@, parent@),
                SubdomainRecordView { parent: parent@, owner: owner@, created_at: now_unix },
            ),
            final(self).parents() == old(self).parents(),
    {
        match validate_owner(owner) {
            Err(e) => {
                return Err(SubdomainError::from(e));
            },
            Ok(()) => {},
        }
        match self.parents.get(parent) {
            Some(p) => {
                if !str_equals(p.owner.as_str(), caller) && !strings_contain(&p.controllers, caller) {
                    return Err(SubdomainError::Unauthorized);
                }
            },
            None => {
                return Err(SubdomainError::ParentNotFound);
            },
        }
        let fqdn = match build_subdomain(label, parent) {
            Ok(name) => name,
            Err(e) => {
                return Err(SubdomainError::from(e));
            },
        };
        if self.subdomains.contains_key(fqdn.as_str()) {
            return Err(SubdomainError::AlreadyExists);
        }
        let record = SubdomainRecord { parent: parent.to_owned(), owner: owner.to_owned(), created_at: now_unix };
        let ghost v = record@;
        self.subdomains.insert(fqdn.clone(), record);
        assert(self.subdomains() =~= old(self).subdomains().insert(fqdn@, v));
        assert(self.parents() =~= old(self).parents());
        Ok(fqdn)
    }

    /// Hands a subdomain from its owner `caller` to `new_owner`.
    pub fn transfer(&mut self, fqdn: &str, caller: &str, new_owner: &str) -> (r: Result<(), SubdomainError>)
        ensures
            r == as_result(old(self).transfer_error(fqdn@, caller@, new_owner@)),
            r is Err ==> *final(self) == *old(self),
            r is Ok ==> final(self).subdomains() == old(self).subdomains().insert(
                fqdn@,
                SubdomainRecordView { owner: new_owner@, ..old(self).subdomains()[fqdn@] },
            ),
            final(self).parents() == old(self).parents(),
    {
        match validate_owner(new_owner) {
            Err(e) => {
                return Err(SubdomainError::from(e));
            },
            Ok(()) => {},
        }
        let mut record = match self.subdomains.get(fqdn) {
            Some(existing) => SubdomainRecord {
                parent: existing.parent.clone(),
                owner: existing.owner.clone(),
                created_at: existing.created_at,
            },
            None => {
                return Err(SubdomainError::NotFound);
            },
        };
        if !str_equals(record.owner.as_str(), caller) {
            return Err(SubdomainError::Unauthorized);
        }
        record.owner = new_owner.to_owned();
        let ghost v = record@;
        self.subdomains.insert(fqdn.to_owned(), record);
        assert(self.subdomains() =~= old(self).subdomains().insert(fqdn@, v));
        assert(self.parents() =~= old(self).parents());
        Ok(())
    }

    pub fn subdomain_exists(&self, fqdn: &str) -> (r: bool)
        ensures
            r == self.subdomains().contains_key(fqdn@),
    {
        self.subdomains.contains_key(fqdn)
    }

    pub fn record(&self, fqdn: &str) -> (r: Option<&SubdomainRecord>)
        ensures
            match r {
                Some(rec) => self.subdomains().contains_key(fqdn@) && rec@ == self.subdomains()[fqdn@],
                None => !self.subdomains().contains_key(fqdn@),
            },
    {
        self.subdomains.get(fqdn)
    }
}

impl Default for SubdomainContract {
    fn default() -> (r: Self)
        ensures
            r.parents() == Map::<Seq<char>, ParentDomainView>::empty(),
            r.subdomains() == Map::<Seq<char>, SubdomainRecordView>::empty(),
    {
        SubdomainContract::new()
    }
}

/// Law: only the current owner can hand a subdomain on, and only to a
/// non-blank new owner.
pub proof fn lemma_transfer_requires_owner(
    contract: &SubdomainContract,
    fqdn: Seq<char>,
    caller: Seq<char>,
    new_owner: Seq<char>,
)
    ensures
        contract.transfer_error(fqdn, caller, new_owner) is None <==> {
            &&& !is_blank(new_owner)
            &&& contract.subdomains().contains_key(fqdn)
            &&& contract.subdomains()[fqdn].owner == caller
        },
{
}

/// Law: a parent can be registered exactly when its name parses as a
/// top-level name and its owner is not blank.
pub proof fn lemma_register_parent_accepts(contract: &SubdomainContract, parent: Seq<char>, owner: Seq<char>)
    ensures
        contract.register_parent_error(parent, owner) is None <==> (spec_parse_fqdn(parent) is Ok && !is_blank(
            owner,
        )),
{
}

/// Law: a subdomain that has been issued cannot be issued again, whoever asks.
pub proof fn lemma_create_is_once_only(
    contract: &SubdomainContract,
    label: Seq<char>,
    parent: Seq<char>,
    caller: Seq<char>,
    owner: Seq<char>,
)
    requires
        contract.subdomains().contains_key(subdomain_name(label, parent)),
    ensures
        contract.create_error(label, parent, caller, owner) is Some,
{
}

/// Law: only the parent's owner or one of its controllers can issue under it.
pub proof fn lemma_create_requires_authority(
    contract: &SubdomainContract,
    label: Seq<char>,
    parent: Seq<char>,
    caller: Seq<char>,
    owner: Seq<char>,
)
    requires
        contract.create_error(label, parent, caller, owner) is None,
    ensures
        contract.parents().contains_key(parent),
        contract.parents()[parent].owner == caller || contract.parents()[parent].controllers.contains(caller),
{
}

} // verus!
