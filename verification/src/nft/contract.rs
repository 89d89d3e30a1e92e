//! Minting and lookup of name tokens.
use vstd::prelude::*;
use vstd::hash_map::StringHashMap;
use crate::common::text::opt_view;

verus! {

#[derive(Debug, Clone, PartialEq, Eq)]
pub struct TokenRecord {
    pub owner: String,
    pub approved: Option<String>,
    pub metadata_uri: Option<String>,
}

pub struct TokenRecordView {
    pub owner: Seq<char>,
    pub approved: Option<Seq<char>>,
    pub metadata_uri: Option<Seq<char>>,
}

impl View for TokenRecord {
    type V = TokenRecordView;

    open spec fn view(&self) -> TokenRecordView {
        TokenRecordView {
            owner: self.owner@,
            approved: opt_view(self.approved),
            metadata_uri: opt_view(self.metadata_uri),
        }
    }
}

#[derive(Debug, Clone, Copy, PartialEq, Eq, Structural)]
pub enum NftError {
    AlreadyMinted,
    NotFound,
    Unauthorized,
}

pub open spec fn nft_error_message(e: NftError) -> Seq<char> {
    match e {
        NftError::AlreadyMinted => "token is already minted"@,
        NftError::NotFound => "token was not found"@,
        NftError::Unauthorized => "caller is not authorized for this token"@,
    }
}

impl NftError {
    /// The description a user is shown for this error.
    pub fn message(&self) -> (r: &'static str)
        ensures
            r@ == nft_error_message(*self),
    {
        match self {
            NftError::AlreadyMinted => "token is already minted",
            NftError::NotFound => "token was not found",
            NftError::Unauthorized => "caller is not authorized for this token",
        }
    }
}

/// Tokens by id.
pub struct NftContract {
    tokens: StringHashMap<TokenRecord>,
}

impl NftContract {
    pub closed spec fn tokens(&self) -> Map<Seq<char>, TokenRecordView> {
        self.tokens@.map_values(|t: TokenRecord| t@)
    }

    pub fn new() -> (r: Self)
        ensures
            r.tokens() == Map::<Seq<char>, TokenRecordView>::empty(),
    {
        let r = NftContract { tokens: StringHashMap::new() };
        assert(r.tokens() =~= Map::<Seq<char>, TokenRecordView>::empty());
        r
    }

    /// The owner of a minted token.
    pub fn owner_of(&self, token_id: &str) -> (r: Option<&str>)
        ensures
            match r {
                Some(owner) => self.tokens().contains_key(token_id@) && owner@ == self.tokens()[token_id@].owner,
                None => !self.tokens().contains_key(token_id@),
            },
    {
        match self.tokens.get(token_id) {
            Some(record) => Some(record.owner.as_str()),
            None => None,
        }
    }

    pub fn token(&self, token_id: &str) -> (r: Option<&TokenRecord>)
        ensures
            match r {
                Some(record) => self.tokens().contains_key(token_id@) && record@ == self.tokens()[token_id@],
                None => !self.tokens().contains_key(token_id@),
            },
    {
        self.tokens.get(token_id)
    }

    /// Mints token `token_id` to `owner`, unapproved; each id can be minted once.
    pub fn mint(&mut self, token_id: &str, owner: &str, metadata_uri: Option<String>) -> (r: Result<(), NftError>)
        ensures
            r == (if old(self).tokens().contains_key(token_id@) {
                Err(NftError::AlreadyMinted)
            } else {
                Ok(())
            }),
            r is Err ==> *final(self) == *old(self),
            r is Ok ==> final(self).tokens() == old(self).tokens().insert(
                token_id@,
                TokenRecordView { owner: owner@, approved: None, metadata_uri: opt_view(metadata_uri) },
            ),
    {
        if self.tokens.contains_key(token_id) {
            return Err(NftError::AlreadyMinted);
        }
        let record = TokenRecord { owner: owner.to_owned(), approved: None, metadata_uri };
        let ghost v = record@;
        self.tokens.insert(token_id.to_owned(), record);
        assert(self.tokens() =~= old(self).tokens().insert(token_id@, v));
        Ok(())
    }
}

impl Default for NftContract {
    fn default() -> (r: Self)
        ensures
            r.tokens() == Map::<Seq<char>, TokenRecordView>::empty(),
    {
        NftContract::new()
    }
}

} // verus!
