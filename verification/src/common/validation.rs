//! Validation of labels, names, owners, registration periods and chains.
use vstd::prelude::*;
use crate::common::constants::{
    MAX_NAME_LENGTH, MAX_REGISTRATION_YEARS, MIN_NAME_LENGTH, MIN_REGISTRATION_YEARS,
};
use crate::common::errors::CommonError;
use crate::common::text::{
    is_blank, lemma_utf8_len_is_encoding_length, str_is_blank, utf8_len, utf8_len_capped,
};
use vstd::utf8::encode_utf8;
use crate::common::types::{Tld, fqdn_of, tld_from_text, tld_text};

verus! {

/// Lowercase ASCII letters, ASCII digits and the hyphen.
pub open spec fn is_label_char(c: char) -> bool {
    ||| ('a' <= c && c <= 'z')
    ||| ('0' <= c && c <= '9')
    ||| c == '-'
}

pub open spec fn all_label_chars(s: Seq<char>) -> bool {
    forall|i: int| 0 <= i < s.len() ==> is_label_char(#[trigger] s[i])
}

pub open spec fn has_hyphen_boundary(s: Seq<char>) -> bool {
    s.len() > 0 && (s[0] == '-' || s[s.len() - 1] == '-')
}

/// The first rule that a label breaks, checked in order: length, then
/// characters, then hyphens at either end.
pub open spec fn label_error(s: Seq<char>) -> Option<CommonError> {
    if utf8_len(s) < MIN_NAME_LENGTH {
        Some(CommonError::NameTooShort)
    } else if utf8_len(s) > MAX_NAME_LENGTH {
        Some(CommonError::NameTooLong)
    } else if !all_label_chars(s) {
        Some(CommonError::InvalidCharacters)
    } else if has_hyphen_boundary(s) {
        Some(CommonError::InvalidLabelBoundary)
    } else {
        None
    }
}

pub open spec fn is_valid_label(s: Seq<char>) -> bool {
    label_error(s) is None
}

pub open spec fn as_unit_result(e: Option<CommonError>) -> Result<(), CommonError> {
    match e {
        Some(e) => Err(e),
        None => Ok(()),
    }
}

pub open spec fn contains_char(s: Seq<char>, c: char) -> bool {
    exists|i: int| 0 <= i < s.len() && s[i] == c
}

/// `k` is the position of the first dot of `s`.
pub open spec fn is_first_dot(s: Seq<char>, k: int) -> bool {
    &&& 0 <= k < s.len()
    &&& s[k] == '.'
    &&& forall|j: int| 0 <= j < k ==> s[j] != '.'
}

pub open spec fn first_dot(s: Seq<char>) -> int {
    choose|k: int| is_first_dot(s, k)
}

/// What splitting a name at its dots gives: exactly one dot, a valid label
/// before it and a supported top-level domain after it.
pub open spec fn spec_parse_fqdn(s: Seq<char>) -> Result<(Seq<char>, Tld), CommonError> {
    if !contains_char(s, '.') {
        Err(CommonError::MissingTld)
    } else {
        let k = first_dot(s);
        let label = s.take(k);
        let tld = s.skip(k + 1);
        if contains_char(tld, '.') {
            Err(CommonError::InvalidName)
        } else if label_error(label) is Some {
            Err(label_error(label)->0)
        } else if tld_from_text(tld) is None {
            Err(CommonError::UnsupportedTld)
        } else {
            Ok((label, tld_from_text(tld)->0))
        }
    }
}

proof fn lemma_first_dot_unique(s: Seq<char>, k: int)
    requires
        is_first_dot(s, k),
    ensures
        first_dot(s) == k,
{
    let c = first_dot(s);
    assert(is_first_dot(s, c));
    if c < k {
        assert(s[c] != '.');
    } else if c > k {
        assert(s[k] != '.');
    }
}

proof fn lemma_first_dot_exists(s: Seq<char>, i: int)
    requires
        0 <= i < s.len(),
        s[i] == '.',
    ensures
        is_first_dot(s, first_dot(s)),
        first_dot(s) <= i,
    decreases i,
{
    if exists|j: int| 0 <= j < i && s[j] == '.' {
        let j = choose|j: int| 0 <= j < i && s[j] == '.';
        lemma_first_dot_exists(s, j);
    } else {
        lemma_first_dot_unique(s, i);
    }
}

/// Law: how `parse_fqdn` splits a name. An accepted name is exactly its label,
/// one dot and `xlm`, with a valid label free of dots; a name without a dot is
/// missing its top-level domain; a name with two or more dots is malformed.
pub proof fn lemma_parse_fqdn_shape(s: Seq<char>)
    ensures
        spec_parse_fqdn(s) is Ok ==> {
            let label = spec_parse_fqdn(s)->Ok_0.0;
            &&& s == label + seq!['.', 'x', 'l', 'm']
            &&& spec_parse_fqdn(s)->Ok_0.1 == Tld::Xlm
            &&& label_error(label) is None
            &&& forall|i: int| 0 <= i < label.len() ==> label[i] != '.'
        },
        (forall|i: int| 0 <= i < s.len() ==> s[i] != '.') ==> spec_parse_fqdn(s) == Err::<(Seq<char>, Tld), CommonError>(
            CommonError::MissingTld,
        ),
        (exists|i: int, j: int| 0 <= i < j < s.len() && s[i] == '.' && s[j] == '.') ==> spec_parse_fqdn(s)
            == Err::<(Seq<char>, Tld), CommonError>(CommonError::InvalidName),
{
    if contains_char(s, '.') {
        let i0 = choose|i: int| 0 <= i < s.len() && s[i] == '.';
        lemma_first_dot_exists(s, i0);
        let k = first_dot(s);
        if spec_parse_fqdn(s) is Ok {
            assert(s.skip(k + 1) =~= seq!['x', 'l', 'm']);
            assert(s =~= s.take(k) + seq!['.', 'x', 'l', 'm']);
        }
        if exists|i: int, j: int| 0 <= i < j < s.len() && s[i] == '.' && s[j] == '.' {
            let (i, j) = choose|i: int, j: int| 0 <= i < j < s.len() && s[i] == '.' && s[j] == '.';
            lemma_first_dot_exists(s, i);
            assert(s.skip(k + 1)[j - k - 1] == '.');
            assert(contains_char(s.skip(k + 1), '.'));
        }
    }
}

pub fn validate_label(label: &str) -> (r: Result<(), CommonError>)
    ensures
        r == as_unit_result(label_error(label@)),
        r is Ok <==> {
            &&& MIN_NAME_LENGTH <= encode_utf8(label@).len() <= MAX_NAME_LENGTH
            &&& forall|i: int| 0 <= i < label@.len() ==> (('a' <= #[trigger] label@[i] && label@[i] <= 'z')
                || ('0' <= label@[i] && label@[i] <= '9') || label@[i] == '-')
            &&& label@.len() > 0 && label@[0] != '-' && label@[label@.len() - 1] != '-'
        },
{
    let r = check_label(label);
    proof {
        lemma_label_rules(label@);
    }
    r
}

#[verifier::loop_isolation(false)]
fn check_label(label: &str) -> (r: Result<(), CommonError>)
    ensures
        r == as_unit_result(label_error(label@)),
{
    let len = utf8_len_capped(label, MAX_NAME_LENGTH);
    if len < MIN_NAME_LENGTH {
        return Err(CommonError::NameTooShort);
    }
    if len > MAX_NAME_LENGTH {
        return Err(CommonError::NameTooLong);
    }
    let n = label.unicode_len();
    let mut i: usize = 0;
    while i < n
        invariant
            n == label@.len(),
            i <= n,
            forall|j: int| 0 <= j < i ==> is_label_char(#[trigger] label@[j]),
        decreases n - i,
    {
        let ch = label.get_char(i);
        if !(('a' <= ch && ch <= 'z') || ('0' <= ch && ch <= '9') || ch == '-') {
            assert(!is_label_char(label@[i as int]));
            assert(!all_label_chars(label@));
            assert(len == utf8_len(label@));
            return Err(CommonError::InvalidCharacters);
        }
        i = i + 1;
    }
    if n > 0 && (label.get_char(0) == '-' || label.get_char(n - 1) == '-') {
        return Err(CommonError::InvalidLabelBoundary);
    }
    Ok(())
}

/// Law: what makes a label valid or which error it gets, in terms of its UTF-8
/// byte length and its characters. Valid labels are 3 to 63 bytes of
/// lowercase ASCII letters, ASCII digits and hyphens that neither start nor
/// end with a hyphen; digits may stand anywhere.
pub proof fn lemma_label_rules(s: Seq<char>)
    ensures
        label_error(s) is None <==> {
            &&& MIN_NAME_LENGTH <= encode_utf8(s).len() <= MAX_NAME_LENGTH
            &&& forall|i: int| 0 <= i < s.len() ==> (('a' <= #[trigger] s[i] && s[i] <= 'z') || ('0' <= s[i]
                && s[i] <= '9') || s[i] == '-')
            &&& s.len() > 0 && s[0] != '-' && s[s.len() - 1] != '-'
        },
        encode_utf8(s).len() < MIN_NAME_LENGTH ==> label_error(s) == Some(CommonError::NameTooShort),
        encode_utf8(s).len() > MAX_NAME_LENGTH ==> label_error(s) == Some(CommonError::NameTooLong),
        MIN_NAME_LENGTH <= encode_utf8(s).len() <= MAX_NAME_LENGTH && (exists|i: int| 0 <= i < s.len()
            && !(('a' <= #[trigger] s[i] && s[i] <= 'z') || ('0' <= s[i] && s[i] <= '9') || s[i] == '-'))
            ==> label_error(s) == Some(CommonError::InvalidCharacters),
        MIN_NAME_LENGTH <= encode_utf8(s).len() <= MAX_NAME_LENGTH && (forall|i: int| 0 <= i < s.len()
            ==> (('a' <= #[trigger] s[i] && s[i] <= 'z') || ('0' <= s[i] && s[i] <= '9') || s[i] == '-'))
            && s.len() > 0 && (s[0] == '-' || s[s.len() - 1] == '-')
            ==> label_error(s) == Some(CommonError::InvalidLabelBoundary),
{
    lemma_utf8_len_is_encoding_length(s);
    if s.len() == 0 {
        assert(utf8_len(s) == 0);
    }
    if exists|i: int| 0 <= i < s.len() && !(('a' <= #[trigger] s[i] && s[i] <= 'z') || ('0' <= s[i] && s[i] <= '9') || s[i] == '-') {
        let i = choose|i: int| 0 <= i < s.len() && !(('a' <= #[trigger] s[i] && s[i] <= 'z') || ('0' <= s[i] && s[i] <= '9') || s[i] == '-');
        assert(!is_label_char(s[i]));
    }
}

pub fn validate_owner(owner: &str) -> (r: Result<(), CommonError>)
    ensures
        r == (if is_blank(owner@) { Err(CommonError::EmptyOwner) } else { Ok(()) }),
{
    if str_is_blank(owner) {
        return Err(CommonError::EmptyOwner);
    }
    Ok(())
}

pub open spec fn years_in_range(years: u64) -> bool {
    MIN_REGISTRATION_YEARS <= years <= MAX_REGISTRATION_YEARS
}

pub fn validate_registration_years(years: u64) -> (r: Result<(), CommonError>)
    ensures
        r == (if years_in_range(years) { Ok(()) } else { Err(CommonError::InvalidRegistrationPeriod) }),
{
    if !(MIN_REGISTRATION_YEARS <= years && years <= MAX_REGISTRATION_YEARS) {
        return Err(CommonError::InvalidRegistrationPeriod);
    }
    Ok(())
}

pub fn validate_chain_name(chain: &str) -> (r: Result<(), CommonError>)
    ensures
        r == (if is_blank(chain@) { Err(CommonError::EmptyChainName) } else { Ok(()) }),
{
    if str_is_blank(chain) {
        return Err(CommonError::EmptyChainName);
    }
    Ok(())
}

/// Splits `label.tld` into its label and top-level domain.
pub fn parse_fqdn(name: &str) -> (r: Result<(String, Tld), CommonError>)
    ensures
        r is Ok <==> spec_parse_fqdn(name@) is Ok,
        r matches Ok((label, tld)) ==> spec_parse_fqdn(name@) == Ok::<(Seq<char>, Tld), CommonError>((label@, tld)),
        r matches Err(e) ==> spec_parse_fqdn(name@) == Err::<(Seq<char>, Tld), CommonError>(e),
{
    let n = name.unicode_len();
    let mut k: usize = 0;
    while k < n
        invariant
            n == name@.len(),
            k <= n,
            forall|j: int| 0 <= j < k ==> name@[j] != '.',
        ensures
            k <= n,
            k < n ==> name@[k as int] == '.',
            forall|j: int| 0 <= j < k ==> name@[j] != '.',
        decreases n - k,
    {
        if name.get_char(k) == '.' {
            break;
        }
        k = k + 1;
    }
    if k == n {
        assert(!contains_char(name@, '.'));
        return Err(CommonError::MissingTld);
    }
    assert(name@[k as int] == '.');
    assert(contains_char(name@, '.'));
    proof {
        lemma_first_dot_unique(name@, k as int);
    }
    let label = name.substring_char(0, k);
    let tld = name.substring_char(k + 1, n);
    assert(label@ =~= name@.take(k as int));
    assert(tld@ =~= name@.skip(k + 1));
    let m = tld.unicode_len();
    let mut i: usize = 0;
    #[verifier::loop_isolation(false)]
    while i < m
        invariant
            m == tld@.len(),
            i <= m,
            forall|j: int| 0 <= j < i ==> tld@[j] != '.',
        decreases m - i,
    {
        if tld.get_char(i) == '.' {
            assert(contains_char(tld@, '.'));
            return Err(CommonError::InvalidName);
        }
        i = i + 1;
    }
    match validate_label(label) {
        Err(e) => {
            return Err(e);
        },
        Ok(()) => {},
    }
    match Tld::parse(tld) {
        Some(parsed) => Ok((label.to_owned(), parsed)),
        None => Err(CommonError::UnsupportedTld),
    }
}

/// Accepts exactly the names that `parse_fqdn` accepts.
pub fn validate_fqdn(name: &str) -> (r: Result<(), CommonError>)
    ensures
        r is Ok <==> spec_parse_fqdn(name@) is Ok,
        r matches Err(e) ==> spec_parse_fqdn(name@) == Err::<(Seq<char>, Tld), CommonError>(e),
{
    match parse_fqdn(name) {
        Ok(_) => Ok(()),
        Err(e) => Err(e),
    }
}

/// The label of a well-formed name.
pub fn extract_label(name: &str) -> (r: Result<String, CommonError>)
    ensures
        r is Ok <==> spec_parse_fqdn(name@) is Ok,
        r matches Ok(label) ==> label@ == spec_parse_fqdn(name@)->Ok_0.0,
        r matches Err(e) ==> spec_parse_fqdn(name@) == Err::<(Seq<char>, Tld), CommonError>(e),
{
    match parse_fqdn(name) {
        Ok((label, _)) => Ok(label),
        Err(e) => Err(e),
    }
}

/// `label.xlm`, for a label that passes `validate_label`.
pub fn build_xlm_name(label: &str) -> (r: Result<String, CommonError>)
    ensures
        r matches Ok(name) ==> is_valid_label(label@) && name@ == fqdn_of(label@, Tld::Xlm),
        r matches Err(e) ==> label_error(label@) == Some(e),
        r is Ok <==> is_valid_label(label@),
        r matches Ok(name) ==> name@ == label@ + seq!['.', 'x', 'l', 'm'],
{
    match validate_label(label) {
        Err(e) => {
            return Err(e);
        },
        Ok(()) => {},
    }
    let mut name = label.to_owned();
    name.append(".");
    name.append(Tld::Xlm.as_str());
    proof {
        reveal_strlit(".");
    }
    Ok(name)
}


/// Law: a name made of a valid label, a dot and a top-level domain splits back
/// into exactly that label and domain.
pub proof fn lemma_parse_fqdn_round_trip(label: Seq<char>, tld: Tld)
    requires
        is_valid_label(label),
    ensures
        spec_parse_fqdn(fqdn_of(label, tld)) == Ok::<(Seq<char>, Tld), CommonError>((label, tld)),
{
    let s = fqdn_of(label, tld);
    let k = label.len() as int;
    assert(s[k] == '.');
    assert forall|j: int| 0 <= j < k implies s[j] != '.' by {
        assert(s[j] == label[j]);
        assert(is_label_char(label[j]));
    }
    lemma_first_dot_unique(s, k);
    assert(contains_char(s, '.'));
    assert(s.take(k) =~= label);
    assert(s.skip(k + 1) =~= tld_text(tld));
    match tld {
        Tld::Xlm => {
            assert(!contains_char(tld_text(tld), '.'));
        },
    }
}

} // verus!
