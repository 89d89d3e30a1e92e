//! The registrar: quotes, reservations, registrations and renewals.
use vstd::prelude::*;
use vstd::hash_map::StringHashMap;
use crate::common::constants::{GRACE_PERIOD_SECONDS, MAX_NAME_LENGTH, SECONDS_PER_YEAR};
use crate::common::text::{utf8_len, utf8_len_capped};
use crate::common::types::{Tld, fqdn_of};
use crate::common::validation::{
    build_xlm_name, extract_label, is_valid_label, spec_parse_fqdn, validate_label,
    validate_registration_years, years_in_range,
};
use crate::registrar::expiry::{expiry_after, expiry_from_now};
use crate::registrar::pricing::{annual_price, price_for_label_length, sat_mul, saturating_mul_u64};

verus! {

#[derive(Clone, Copy, Debug, Eq, PartialEq, Structural)]
pub struct RegistrationQuote {
    pub fee_stroops: u64,
    pub expiry_unix: u64,
    pub grace_period_ends_at: u64,
}

#[derive(Clone, Debug, Eq, PartialEq)]
pub struct RegistrationRecord {
    pub name: String,
    pub owner: String,
    pub registered_at: u64,
    pub expires_at: u64,
    pub grace_period_ends_at: u64,
    pub fee_paid: u64,
    pub renewed_at: u64,
}

#[derive(Copy, Clone, Debug, Eq, PartialEq, PartialOrd, Ord, Structural)]
pub enum RegistrarError {
    InsufficientFee,
    NotFound,
    NotRenewable,
    AlreadyRegistered,
    Reserved,
    Unauthorized,
    Validation,
    RegistrationClaimable,
}

/// `x`, or `u64::MAX` where `x` does not fit.
pub open spec fn capped(x: int) -> int {
    if x > u64::MAX {
        u64::MAX as int
    } else {
        x
    }
}

/// The price and lifecycle of registering `label` for `years` years at `now`.
pub open spec fn spec_quote(label: Seq<char>, years: u64, now: u64) -> RegistrationQuote {
    let expiry = expiry_after(now, years);
    RegistrationQuote {
        fee_stroops: sat_mul(annual_price(utf8_len(label)), years),
        expiry_unix: expiry,
        grace_period_ends_at: expiry.saturating_add(GRACE_PERIOD_SECONDS),
    }
}

/// Renewal is open until the grace period after `expiry` has passed; after
/// that the name is claimable and renewal is refused.
pub open spec fn spec_can_renew(expiry_unix: u64, now_unix: u64) -> Result<bool, RegistrarError> {
    if now_unix > expiry_unix.saturating_add(GRACE_PERIOD_SECONDS) {
        Err(RegistrarError::RegistrationClaimable)
    } else {
        Ok(true)
    }
}

pub open spec fn as_result(e: Option<RegistrarError>) -> Result<(), RegistrarError> {
    match e {
        Some(e) => Err(e),
        None => Ok(()),
    }
}

impl RegistrationRecord {
    /// Every field of the record is as given.
    pub open spec fn has_fields(
        self,
        name: Seq<char>,
        owner: Seq<char>,
        registered_at: u64,
        expires_at: u64,
        grace_period_ends_at: u64,
        fee_paid: u64,
        renewed_at: u64,
    ) -> bool {
        &&& self.name@ == name
        &&& self.owner@ == owner
        &&& self.registered_at == registered_at
        &&& self.expires_at == expires_at
        &&& self.grace_period_ends_at == grace_period_ends_at
        &&& self.fee_paid == fee_paid
        &&& self.renewed_at == renewed_at
    }

    pub fn duplicate(&self) -> (r: RegistrationRecord)
        ensures
            r == *self,
    {
        RegistrationRecord {
            name: self.name.clone(),
            owner: self.owner.clone(),
            registered_at: self.registered_at,
            expires_at: self.expires_at,
            grace_period_ends_at: self.grace_period_ends_at,
            fee_paid: self.fee_paid,
            renewed_at: self.renewed_at,
        }
    }
}

/// Registrar state: registrations keyed by full name, reserved labels and the
/// treasury balance.
pub struct RegistrarContract {
    registrations: StringHashMap<RegistrationRecord>,
    reserved: StringHashMap<()>,
    treasury: u64,
}

impl RegistrarContract {
    /// Registrations by full name.
    pub closed spec fn registrations(&self) -> Map<Seq<char>, RegistrationRecord> {
        self.registrations@
    }

    /// Labels that may not be registered.
    pub closed spec fn reserved_labels(&self) -> Set<Seq<char>> {
        self.reserved@.dom()
    }

    pub closed spec fn treasury(&self) -> u64 {
        self.treasury
    }

    /// A name is available when it has never been registered or its grace
    /// period has passed; a label that is not valid is never available.
    pub open spec fn spec_is_available(&self, label: Seq<char>, now: u64) -> bool {
        let name = fqdn_of(label, Tld::Xlm);
        &&& is_valid_label(label)
        &&& (!self.registrations().contains_key(name)
            || now > self.registrations()[name].grace_period_ends_at)
    }

    /// Why registering `label` would be refused, checked in order.
    pub open spec fn register_error(
        &self,
        label: Seq<char>,
        years: u64,
        payment: u64,
        now: u64,
    ) -> Option<RegistrarError> {
        let name = fqdn_of(label, Tld::Xlm);
        if !is_valid_label(label) || !years_in_range(years) {
            Some(RegistrarError::Validation)
        } else if self.reserved_labels().contains(label) {
            Some(RegistrarError::Reserved)
        } else if payment < spec_quote(label, years, now).fee_stroops {
            Some(RegistrarError::InsufficientFee)
        } else if self.registrations().contains_key(name)
            && now <= self.registrations()[name].grace_period_ends_at {
            Some(RegistrarError::AlreadyRegistered)
        } else {
            None
        }
    }

    /// Why renewing `name` would be refused, checked in order.
    pub open spec fn renew_error(
        &self,
        name: Seq<char>,
        caller: Seq<char>,
        years: u64,
        payment: u64,
        now: u64,
    ) -> Option<RegistrarError> {
        if spec_parse_fqdn(name) is Err || !years_in_range(years) {
            Some(RegistrarError::Validation)
        } else if !self.registrations().contains_key(name) {
            Some(RegistrarError::NotFound)
        } else if self.registrations()[name].owner@ != caller {
            Some(RegistrarError::Unauthorized)
        } else if spec_can_renew(self.registrations()[name].expires_at, now) is Err {
            Some(RegistrarError::RegistrationClaimable)
        } else if payment < sat_mul(
            annual_price(utf8_len(spec_parse_fqdn(name)->Ok_0.0)),
            years,
        ) {
            Some(RegistrarError::InsufficientFee)
        } else {
            None
        }
    }

    pub fn new() -> (r: Self)
        ensures
            r.registrations() == Map::<Seq<char>, RegistrationRecord>::empty(),
            r.reserved_labels() == Set::<Seq<char>>::empty(),
            r.treasury() == 0,
    {
        RegistrarContract {
            registrations: StringHashMap::new(),
            reserved: StringHashMap::new(),
            treasury: 0,
        }
    }

    /// Marks a valid label as reserved, so that it cannot be registered.
    pub fn reserve_label(&mut self, label: &str) -> (r: Result<(), RegistrarError>)
        ensures
            r == (if is_valid_label(label@) { Ok(()) } else { Err(RegistrarError::Validation) }),
            r is Ok ==> final(self).reserved_labels() == old(self).reserved_labels().insert(label@),
            r is Err ==> final(self).reserved_labels() == old(self).reserved_labels(),
            final(self).registrations() == old(self).registrations(),
            final(self).treasury() == old(self).treasury(),
    {
        match validate_label(label) {
            Err(_) => {
                return Err(RegistrarError::Validation);
            },
            Ok(()) => {},
        }
        self.reserved.insert(label.to_owned(), ());
        Ok(())
    }

    pub fn quote_registration(&self, label: &str, years: u64, now_unix: u64) -> (r: Result<
        RegistrationQuote,
        RegistrarError,
    >)
        ensures
            r == (if is_valid_label(label@) && years_in_range(years) {
                Ok(spec_quote(label@, years, now_unix))
            } else {
                Err(RegistrarError::Validation)
            }),
            r matches Ok(q) ==> {
                &&& q.fee_stroops == capped(annual_price(utf8_len(label@)) * years)
                &&& q.expiry_unix == capped(now_unix + years * SECONDS_PER_YEAR)
                &&& q.grace_period_ends_at == capped(q.expiry_unix + GRACE_PERIOD_SECONDS)
            },
    {
        proof {
            lemma_quote_arithmetic(label@, years, now_unix);
        }
        match validate_label(label) {
            Err(_) => {
                return Err(RegistrarError::Validation);
            },
            Ok(()) => {},
        }
        match validate_registration_years(years) {
            Err(_) => {
                return Err(RegistrarError::Validation);
            },
            Ok(()) => {},
        }
        Ok(build_quote(label, years, now_unix))
    }

    /// Registers `label.xlm` to `owner` for `years` years, taking `payment_stroops`
    /// into the treasury.
    pub fn register(
        &mut self,
        label: &str,
        owner: &str,
        years: u64,
        payment_stroops: u64,
        now_unix: u64,
    ) -> (r: Result<(), RegistrarError>)
        ensures
            r == as_result(old(self).register_error(label@, years, payment_stroops, now_unix)),
            r is Err ==> *final(self) == *old(self),
            r is Ok ==> {
                let name = fqdn_of(label@, Tld::Xlm);
                let q = spec_quote(label@, years, now_unix);
                &&& final(self).registrations().contains_key(name)
                &&& final(self).registrations()[name].name@ == name
                &&& final(self).registrations()[name].owner@ == owner@
                &&& final(self).registrations()[name].registered_at == now_unix
                &&& final(self).registrations()[name].expires_at == q.expiry_unix
                &&& final(self).registrations()[name].grace_period_ends_at == q.grace_period_ends_at
                &&& final(self).registrations()[name].fee_paid == payment_stroops
                &&& final(self).registrations()[name].renewed_at == now_unix
                &&& final(self).registrations().remove(name) == old(self).registrations().remove(name)
                &&& final(self).reserved_labels() == old(self).reserved_labels()
                &&& final(self).treasury() == old(self).treasury().saturating_add(payment_stroops)
                &&& !final(self).spec_is_available(label@, now_unix)
            },
            r is Ok ==> payment_stroops >= annual_price(utf8_len(label@)) * years || payment_stroops == u64::MAX,
            r is Ok ==> final(self).registrations()[fqdn_of(label@, Tld::Xlm)].expires_at == capped(
                now_unix + years * SECONDS_PER_YEAR,
            ),
            r is Ok ==> final(self).registrations()[fqdn_of(label@, Tld::Xlm)].grace_period_ends_at == capped(
                final(self).registrations()[fqdn_of(label@, Tld::Xlm)].expires_at + GRACE_PERIOD_SECONDS,
            ),
    {
        proof {
            lemma_quote_arithmetic(label@, years, now_unix);
            lemma_register_charges_full_fee(old(self), label@, years, payment_stroops, now_unix);
        }
        match validate_label(label) {
            Err(_) => {
                return Err(RegistrarError::Validation);
            },
            Ok(()) => {},
        }
        match validate_registration_years(years) {
            Err(_) => {
                return Err(RegistrarError::Validation);
            },
            Ok(()) => {},
        }
        if self.reserved.contains_key(label) {
            return Err(RegistrarError::Reserved);
        }
        let quote = build_quote(label, years, now_unix);
        if payment_stroops < quote.fee_stroops {
            return Err(RegistrarError::InsufficientFee);
        }
        let name = match build_xlm_name(label) {
            Ok(name) => name,
            Err(_) => {
                return Err(RegistrarError::Validation);
            },
        };
        match self.registrations.get(name.as_str()) {
            Some(existing) => {
                if now_unix <= existing.grace_period_ends_at {
                    return Err(RegistrarError::AlreadyRegistered);
                }
            },
            None => {},
        }
        let record = RegistrationRecord {
            name: name.clone(),
            owner: owner.to_owned(),
            registered_at: now_unix,
            expires_at: quote.expiry_unix,
            grace_period_ends_at: quote.grace_period_ends_at,
            fee_paid: payment_stroops,
            renewed_at: now_unix,
        };
        self.registrations.insert(name, record);
        self.treasury = self.treasury.saturating_add(payment_stroops);
        proof {
            assert(final(self).registrations().remove(fqdn_of(label@, Tld::Xlm))
                =~= old(self).registrations().remove(fqdn_of(label@, Tld::Xlm)));
        }
        Ok(())
    }

    /// Extends a registration held by `caller` by `years` years, from its
    /// current expiry or from now, whichever is later.
    pub fn renew(
        &mut self,
        name: &str,
        caller: &str,
        years: u64,
        payment_stroops: u64,
        now_unix: u64,
    ) -> (r: Result<(), RegistrarError>)
        ensures
            r == as_result(old(self).renew_error(name@, caller@, years, payment_stroops, now_unix)),
            r is Err ==> *final(self) == *old(self),
            r is Ok ==> {
                let prev = old(self).registrations()[name@];
                let base = if prev.expires_at > now_unix { prev.expires_at } else { now_unix };
                let expires = expiry_after(base, years);
                &&& final(self).registrations().contains_key(name@)
                &&& final(self).registrations()[name@].name@ == prev.name@
                &&& final(self).registrations()[name@].owner@ == prev.owner@
                &&& final(self).registrations()[name@].registered_at == prev.registered_at
                &&& final(self).registrations()[name@].expires_at == expires
                &&& final(self).registrations()[name@].grace_period_ends_at == expires.saturating_add(GRACE_PERIOD_SECONDS)
                &&& final(self).registrations()[name@].fee_paid == prev.fee_paid.saturating_add(payment_stroops)
                &&& final(self).registrations()[name@].renewed_at == now_unix
                &&& final(self).registrations().remove(name@) == old(self).registrations().remove(name@)
                &&& final(self).reserved_labels() == old(self).reserved_labels()
                &&& final(self).treasury() == old(self).treasury().saturating_add(payment_stroops)
                &&& final(self).registrations()[name@].expires_at >= prev.expires_at
                &&& final(self).registrations()[name@].expires_at >= now_unix
            },
            r is Ok ==> spec_parse_fqdn(name@) is Ok && (payment_stroops >= annual_price(
                utf8_len(spec_parse_fqdn(name@)->Ok_0.0),
            ) * years || payment_stroops == u64::MAX),
            r is Ok ==> {
                let prev = old(self).registrations()[name@];
                let base: int = if prev.expires_at > now_unix { prev.expires_at as int } else { now_unix as int };
                &&& final(self).registrations()[name@].expires_at == capped(base + years * SECONDS_PER_YEAR)
                &&& final(self).registrations()[name@].grace_period_ends_at == capped(
                    final(self).registrations()[name@].expires_at + GRACE_PERIOD_SECONDS,
                )
                &&& final(self).registrations()[name@].owner@ == caller@
            },
    {
        proof {
            lemma_renew_charges_full_fee(old(self), name@, caller@, years, payment_stroops, now_unix);
            if old(self).registrations().contains_key(name@) {
                let prev = old(self).registrations()[name@];
                let base = if prev.expires_at > now_unix { prev.expires_at } else { now_unix };
                lemma_expiry_after_capped(base, years);
            }
        }
        let label = match extract_label(name) {
            Ok(label) => label,
            Err(_) => {
                return Err(RegistrarError::Validation);
            },
        };
        match validate_registration_years(years) {
            Err(_) => {
                return Err(RegistrarError::Validation);
            },
            Ok(()) => {},
        }
        let mut record = match self.registrations.get(name) {
            Some(existing) => existing.duplicate(),
            None => {
                return Err(RegistrarError::NotFound);
            },
        };
        if !record.owner.eq(&caller.to_owned()) {
            return Err(RegistrarError::Unauthorized);
        }
        match can_renew(record.expires_at, now_unix) {
            Ok(true) => {},
            Ok(false) => {
                return Err(RegistrarError::NotRenewable);
            },
            Err(e) => {
                return Err(e);
            },
        }
        let label_len = utf8_len_capped(label.as_str(), MAX_NAME_LENGTH);
        let fee_due = saturating_mul_u64(price_for_label_length(label_len), years);
        if payment_stroops < fee_due {
            return Err(RegistrarError::InsufficientFee);
        }
        let base_time = if record.expires_at > now_unix {
            record.expires_at
        } else {
            now_unix
        };
        let expires_at = expiry_from_now(base_time, years);
        record.expires_at = expires_at;
        record.grace_period_ends_at = expires_at.saturating_add(GRACE_PERIOD_SECONDS);
        record.renewed_at = now_unix;
        record.fee_paid = record.fee_paid.saturating_add(payment_stroops);
        self.registrations.insert(name.to_owned(), record);
        self.treasury = self.treasury.saturating_add(payment_stroops);
        proof {
            assert(final(self).registrations().remove(name@) =~= old(self).registrations().remove(
                name@,
            ));
        }
        Ok(())
    }

    /// The registration stored under the full name `name`.
    pub fn registration(&self, name: &str) -> (r: Option<RegistrationRecord>)
        ensures
            match r {
                Some(record) => self.registrations().contains_key(name@)
                    && record == self.registrations()[name@],
                None => !self.registrations().contains_key(name@),
            },
    {
        match self.registrations.get(name) {
            Some(record) => Some(record.duplicate()),
            None => None,
        }
    }

    /// Whether `label.xlm` can be registered at `now_unix`.
    pub fn is_available(&self, label: &str, now_unix: u64) -> (r: bool)
        ensures
            r == self.spec_is_available(label@, now_unix),
    {
        let name = match build_xlm_name(label) {
            Ok(name) => name,
            Err(_) => {
                return false;
            },
        };
        match self.registrations.get(name.as_str()) {
            Some(record) => now_unix > record.grace_period_ends_at,
            None => true,
        }
    }

    pub fn treasury_balance(&self) -> (r: u64)
        ensures
            r == self.treasury(),
    {
        self.treasury
    }
}

impl Default for RegistrarContract {
    fn default() -> (r: Self)
        ensures
            r.registrations() == Map::<Seq<char>, RegistrationRecord>::empty(),
            r.reserved_labels() == Set::<Seq<char>>::empty(),
            r.treasury() == 0,
    {
        RegistrarContract::new()
    }
}

/// Law: for a valid, unreserved label with a valid period and a sufficient
/// payment, registration succeeds exactly when the name is available.
pub proof fn lemma_register_succeeds_iff_available(
    registrar: &RegistrarContract,
    label: Seq<char>,
    years: u64,
    payment: u64,
    now: u64,
)
    requires
        is_valid_label(label),
        years_in_range(years),
        !registrar.reserved_labels().contains(label),
        payment >= spec_quote(label, years, now).fee_stroops,
    ensures
        registrar.register_error(label, years, payment, now) is None <==> registrar.spec_is_available(label, now),
{
}

proof fn lemma_expiry_after_capped(start: u64, years: u64)
    ensures
        expiry_after(start, years) == capped(start + years * SECONDS_PER_YEAR),
{
}

proof fn lemma_quote_arithmetic(label: Seq<char>, years: u64, now: u64)
    ensures
        spec_quote(label, years, now).fee_stroops == capped(annual_price(utf8_len(label)) * years),
        spec_quote(label, years, now).expiry_unix == capped(now + years * SECONDS_PER_YEAR),
        spec_quote(label, years, now).grace_period_ends_at == capped(
            spec_quote(label, years, now).expiry_unix + GRACE_PERIOD_SECONDS,
        ),
{
    lemma_expiry_after_capped(now, years);
}

/// Law: a registration is accepted only against the full fee for every year
/// asked for (the label's annual price times the years, saturating), and with
/// a valid, unreserved label and period a smaller payment is refused as
/// insufficient.
pub proof fn lemma_register_charges_full_fee(
    registrar: &RegistrarContract,
    label: Seq<char>,
    years: u64,
    payment: u64,
    now: u64,
)
    ensures
        registrar.register_error(label, years, payment, now) is None ==> (payment >= annual_price(
            utf8_len(label),
        ) * years || payment == u64::MAX),
        is_valid_label(label) && years_in_range(years) && !registrar.reserved_labels().contains(label)
            && payment < annual_price(utf8_len(label)) * years && payment < u64::MAX
            ==> registrar.register_error(label, years, payment, now) == Some(RegistrarError::InsufficientFee),
{
    lemma_quote_arithmetic(label, years, now);
}

/// Law: a renewal is accepted only against the full fee for every added year,
/// priced by the label of the name, and an owner's otherwise valid renewal
/// with a smaller payment is refused as insufficient.
pub proof fn lemma_renew_charges_full_fee(
    registrar: &RegistrarContract,
    name: Seq<char>,
    caller: Seq<char>,
    years: u64,
    payment: u64,
    now: u64,
)
    ensures
        registrar.renew_error(name, caller, years, payment, now) is None ==> spec_parse_fqdn(name) is Ok && (
        payment >= annual_price(utf8_len(spec_parse_fqdn(name)->Ok_0.0)) * years || payment == u64::MAX),
        spec_parse_fqdn(name) is Ok && years_in_range(years) && registrar.registrations().contains_key(name)
            && registrar.registrations()[name].owner@ == caller
            && now <= capped(registrar.registrations()[name].expires_at + GRACE_PERIOD_SECONDS)
            && payment < annual_price(utf8_len(spec_parse_fqdn(name)->Ok_0.0)) * years
            && payment < u64::MAX
            ==> registrar.renew_error(name, caller, years, payment, now) == Some(RegistrarError::InsufficientFee),
{
}

/// Law: a name is available when its label is valid and it has no registration
/// or the grace period of its registration has passed (claimable:
/// `now > grace_period_ends_at`); a registration is refused as already
/// registered while `now <= grace_period_ends_at`.
pub proof fn lemma_availability_follows_grace(
    registrar: &RegistrarContract,
    label: Seq<char>,
    years: u64,
    payment: u64,
    now: u64,
)
    ensures
        registrar.spec_is_available(label, now) <==> {
            &&& is_valid_label(label)
            &&& (!registrar.registrations().contains_key(label + seq!['.', 'x', 'l', 'm'])
                || now > registrar.registrations()[label + seq!['.', 'x', 'l', 'm']].grace_period_ends_at)
        },
        registrar.registrations().contains_key(label + seq!['.', 'x', 'l', 'm'])
            && now <= registrar.registrations()[label + seq!['.', 'x', 'l', 'm']].grace_period_ends_at
            ==> registrar.register_error(label, years, payment, now) is Some,
{
    assert(fqdn_of(label, Tld::Xlm) =~= label + seq!['.', 'x', 'l', 'm']);
}

/// Law: a quote's lifecycle is ordered: the registration starts now, expires
/// no earlier, and its grace period ends no earlier than its expiry.
pub proof fn lemma_quote_lifecycle_ordered(label: Seq<char>, years: u64, now: u64)
    ensures
        now <= spec_quote(label, years, now).expiry_unix,
        spec_quote(label, years, now).expiry_unix <= spec_quote(label, years, now).grace_period_ends_at,
{
}

/// The quote for a label that has passed validation.
fn build_quote(label: &str, years: u64, now_unix: u64) -> (r: RegistrationQuote)
    requires
        is_valid_label(label@),
    ensures
        r == spec_quote(label@, years, now_unix),
{
    let len = utf8_len_capped(label, MAX_NAME_LENGTH);
    let annual_fee = price_for_label_length(len);
    let expiry_unix = expiry_from_now(now_unix, years);
    RegistrationQuote {
        fee_stroops: saturating_mul_u64(annual_fee, years),
        expiry_unix,
        grace_period_ends_at: expiry_unix.saturating_add(GRACE_PERIOD_SECONDS),
    }
}

/// Whether a registration that expires at `expiry_unix` may still be renewed at `now_unix`.
pub fn can_renew(expiry_unix: u64, now_unix: u64) -> (r: Result<bool, RegistrarError>)
    ensures
        r == spec_can_renew(expiry_unix, now_unix),
        r == Ok::<bool, RegistrarError>(true) <==> now_unix <= capped(expiry_unix + GRACE_PERIOD_SECONDS),
        r is Err ==> r == Err::<bool, RegistrarError>(RegistrarError::RegistrationClaimable),
{
    let grace_period_end = expiry_unix.saturating_add(GRACE_PERIOD_SECONDS);
    if now_unix > grace_period_end {
        return Err(RegistrarError::RegistrationClaimable);
    }
    Ok(now_unix <= grace_period_end)
}

} // verus!
