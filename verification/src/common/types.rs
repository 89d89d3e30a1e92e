//! The name record and top-level domains.
use vstd::prelude::*;
use crate::common::text::{clone_opt, opt_view, str_equals};

verus! {

#[derive(Debug, Clone, PartialEq, Eq, Structural)]
pub enum Tld {
    Xlm,
}

/// The text of a top-level domain, as it appears after the last dot.
pub open spec fn tld_text(tld: Tld) -> Seq<char> {
    match tld {
        Tld::Xlm => seq!['x', 'l', 'm'],
    }
}

/// The top-level domain that a text names, if any.
pub open spec fn tld_from_text(s: Seq<char>) -> Option<Tld> {
    if s == seq!['x', 'l', 'm'] {
        Some(Tld::Xlm)
    } else {
        None
    }
}

/// A fully qualified name: the label, a dot, and the top-level domain.
pub open spec fn fqdn_of(label: Seq<char>, tld: Tld) -> Seq<char> {
    label + seq!['.'] + tld_text(tld)
}

#[derive(Debug, Clone, PartialEq, Eq)]
pub struct NameRecord {
    pub label: String,
    pub tld: Tld,
    pub owner: String,
    pub resolver: Option<String>,
    pub ttl_seconds: u64,
}

pub struct NameRecordView {
    pub label: Seq<char>,
    pub tld: Tld,
    pub owner: Seq<char>,
    pub resolver: Option<Seq<char>>,
    pub ttl_seconds: u64,
}

impl View for NameRecord {
    type V = NameRecordView;

    open spec fn view(&self) -> NameRecordView {
        NameRecordView {
            label: self.label@,
            tld: self.tld,
            owner: self.owner@,
            resolver: opt_view(self.resolver),
            ttl_seconds: self.ttl_seconds,
        }
    }
}

impl NameRecord {
    pub fn duplicate(&self) -> (r: NameRecord)
        ensures
            r == *self,
    {
        NameRecord {
            label: self.label.clone(),
            tld: match self.tld {
                Tld::Xlm => Tld::Xlm,
            },
            owner: self.owner.clone(),
            resolver: clone_opt(&self.resolver),
            ttl_seconds: self.ttl_seconds,
        }
    }

    /// `label.tld`.
    pub fn fqdn(&self) -> (r: String)
        ensures
            r@ == fqdn_of(self.label@, self.tld),
            self.tld == Tld::Xlm ==> r@ == self.label@ + seq!['.', 'x', 'l', 'm'],
    {
        let mut r = self.label.clone();
        r.append(".");
        r.append(self.tld.as_str());
        proof {
            reveal_strlit(".");
        }
        r
    }
}

impl Tld {
    pub fn as_str(&self) -> (r: &'static str)
        ensures
            r@ == tld_text(*self),
    {
        proof {
            reveal_strlit("xlm");
        }
        match self {
            Tld::Xlm => "xlm",
        }
    }

    /// The top-level domain named by `value`, compared exactly.
    pub fn parse(value: &str) -> (r: Option<Tld>)
        ensures
            r == tld_from_text(value@),
    {
        proof {
            reveal_strlit("xlm");
            assert("xlm"@ =~= seq!['x', 'l', 'm']);
        }
        if str_equals(value, "xlm") {
            Some(Tld::Xlm)
        } else {
            None
        }
    }
}

} // verus!
