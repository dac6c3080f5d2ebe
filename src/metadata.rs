//! Token-level and contract-level metadata records.
use vstd::prelude::*;
use crate::decimal::{decimal, u64_to_decimal};
use vstd::string::StringExecFns;

verus! {

/// The metadata standard that contract-level metadata must declare.
pub const NFT_METADATA_SPEC: &'static str = "nft-1.0.0";

/// Length in bytes of a reference hash (a sha256 digest).
pub const HASH_LEN: usize = 32;

/// Milliseconds that must pass after a stage transition before the next one.
pub const COOLDOWN_MS: u64 = 300000;

pub open spec fn opt_str_view(o: Option<String>) -> Option<Seq<char>> {
    match o {
        Some(s) => Some(s@),
        None => None,
    }
}

pub open spec fn opt_bytes_view(o: Option<Vec<u8>>) -> Option<Seq<u8>> {
    match o {
        Some(b) => Some(b@),
        None => None,
    }
}

pub fn opt_str_eq(a: &Option<String>, b: &Option<String>) -> (r: bool)
    ensures
        r == (opt_str_view(*a) == opt_str_view(*b)),
{
    match (a, b) {
        (Some(x), Some(y)) => *x == *y,
        (None, None) => true,
        _ => false,
    }
}

fn bytes_eq(a: &Vec<u8>, b: &Vec<u8>) -> (r: bool)
    ensures
        r == (a@ == b@),
{
    if a.len() != b.len() {
        return false;
    }
    let mut i: usize = 0;
    while i < a.len()
        invariant
            a.len() == b.len(),
            i <= a.len(),
            forall|j: int| 0 <= j < i ==> a@[j] == b@[j],
        decreases a.len() - i,
    {
        if a[i] != b[i] {
            return false;
        }
        i = i + 1;
    }
    assert(a@ =~= b@);
    true
}

fn opt_bytes_eq(a: &Option<Vec<u8>>, b: &Option<Vec<u8>>) -> (r: bool)
    ensures
        r == (opt_bytes_view(*a) == opt_bytes_view(*b)),
{
    match (a, b) {
        (Some(x), Some(y)) => bytes_eq(x, y),
        (None, None) => true,
        _ => false,
    }
}

pub fn opt_str_copy(o: &Option<String>) -> (r: Option<String>)
    ensures
        opt_str_view(r) == opt_str_view(*o),
{
    match o {
        Some(s) => Some(s.clone()),
        None => None,
    }
}

fn opt_bytes_copy(o: &Option<Vec<u8>>) -> (r: Option<Vec<u8>>)
    ensures
        opt_bytes_view(r) == opt_bytes_view(*o),
{
    match o {
        Some(b) => {
            let c = b.clone();
            assert(c@ =~= b@);
            Some(c)
        },
        None => None,
    }
}

/// Metadata of one token, or a catalog template for it. Hashes are raw bytes.
#[derive(Debug, Clone, PartialEq, Eq)]
pub struct TokenMetadata {
    pub title: Option<String>,
    pub description: Option<String>,
    pub media: Option<String>,
    pub media_hash: Option<Vec<u8>>,
    pub copies: Option<u64>,
    pub issued_at: Option<String>,
    pub expires_at: Option<String>,
    pub starts_at: Option<String>,
    pub updated_at: Option<String>,
    pub extra: Option<String>,
    pub reference: Option<String>,
    pub reference_hash: Option<Vec<u8>>,
}

/// The value of a `TokenMetadata`, with text as character sequences.
pub struct MetadataView {
    pub title: Option<Seq<char>>,
    pub description: Option<Seq<char>>,
    pub media: Option<Seq<char>>,
    pub media_hash: Option<Seq<u8>>,
    pub copies: Option<u64>,
    pub issued_at: Option<Seq<char>>,
    pub expires_at: Option<Seq<char>>,
    pub starts_at: Option<Seq<char>>,
    pub updated_at: Option<Seq<char>>,
    pub extra: Option<Seq<char>>,
    pub reference: Option<Seq<char>>,
    pub reference_hash: Option<Seq<u8>>,
}

impl View for TokenMetadata {
    type V = MetadataView;

    open spec fn view(&self) -> MetadataView {
        MetadataView {
            title: opt_str_view(self.title),
            description: opt_str_view(self.description),
            media: opt_str_view(self.media),
            media_hash: opt_bytes_view(self.media_hash),
            copies: self.copies,
            issued_at: opt_str_view(self.issued_at),
            expires_at: opt_str_view(self.expires_at),
            starts_at: opt_str_view(self.starts_at),
            updated_at: opt_str_view(self.updated_at),
            extra: opt_str_view(self.extra),
            reference: opt_str_view(self.reference),
            reference_hash: opt_bytes_view(self.reference_hash),
        }
    }
}

impl MetadataView {
    /// The template as handed out at time `now`: issued now, one copy, and
    /// eligible to evolve once the cooldown has passed.
    pub open spec fn stamped(self, now: u64) -> MetadataView {
        MetadataView {
            issued_at: Some(decimal(now as nat)),
            copies: Some(1u64),
            extra: Some(decimal((now + COOLDOWN_MS) as nat)),
            ..self
        }
    }
}

impl TokenMetadata {
    /// Whether two records hold the same values in every field.
    pub fn same_as(&self, other: &TokenMetadata) -> (r: bool)
        ensures
            r == (self@ == other@),
    {
        opt_str_eq(&self.title, &other.title) && opt_str_eq(&self.description, &other.description)
            && opt_str_eq(&self.media, &other.media) && opt_bytes_eq(&self.media_hash, &other.media_hash)
            && self.copies == other.copies && opt_str_eq(&self.issued_at, &other.issued_at)
            && opt_str_eq(&self.expires_at, &other.expires_at) && opt_str_eq(&self.starts_at, &other.starts_at)
            && opt_str_eq(&self.updated_at, &other.updated_at) && opt_str_eq(&self.extra, &other.extra)
            && opt_str_eq(&self.reference, &other.reference)
            && opt_bytes_eq(&self.reference_hash, &other.reference_hash)
    }

    /// A copy holding the same values.
    pub fn duplicate(&self) -> (r: TokenMetadata)
        ensures
            r@ == self@,
    {
        TokenMetadata {
            title: opt_str_copy(&self.title),
            description: opt_str_copy(&self.description),
            media: opt_str_copy(&self.media),
            media_hash: opt_bytes_copy(&self.media_hash),
            copies: self.copies,
            issued_at: opt_str_copy(&self.issued_at),
            expires_at: opt_str_copy(&self.expires_at),
            starts_at: opt_str_copy(&self.starts_at),
            updated_at: opt_str_copy(&self.updated_at),
            extra: opt_str_copy(&self.extra),
            reference: opt_str_copy(&self.reference),
            reference_hash: opt_bytes_copy(&self.reference_hash),
        }
    }

    /// A copy stamped at time `now` (milliseconds).
    pub fn stamped(&self, now: u64) -> (r: TokenMetadata)
        requires
            now <= u64::MAX - COOLDOWN_MS,
        ensures
            r@ == self@.stamped(now),
    {
        let mut r = self.duplicate();
        r.issued_at = Some(u64_to_decimal(now));
        r.copies = Some(1u64);
        r.extra = Some(u64_to_decimal(now + COOLDOWN_MS));
        r
    }
}

/// Metadata of the contract itself.
#[derive(Debug, Clone, PartialEq, Eq)]
pub struct ContractMetadata {
    pub spec: String,
    pub name: String,
    pub symbol: String,
    pub icon: Option<String>,
    pub base_uri: Option<String>,
    pub reference: Option<String>,
    pub reference_hash: Option<Vec<u8>>,
}

pub open spec fn nft_metadata_spec() -> Seq<char> {
    seq!['n', 'f', 't', '-', '1', '.', '0', '.', '0']
}

impl ContractMetadata {
    /// Declares the supported standard; a reference comes with its hash, and
    /// a hash is a full digest.
    pub open spec fn valid(&self) -> bool {
        &&& self.spec@ == nft_metadata_spec()
        &&& self.reference.is_some() == self.reference_hash.is_some()
        &&& (self.reference_hash matches Some(h) ==> h@.len() == HASH_LEN)
    }

    pub fn is_valid(&self) -> (r: bool)
        ensures
            r == self.valid(),
    {
        proof {
            reveal_strlit("nft-1.0.0");
        }
        let expected = String::from_str(NFT_METADATA_SPEC);
        assert(expected@ =~= nft_metadata_spec());
        if self.spec != expected {
            return false;
        }
        if self.reference.is_some() != self.reference_hash.is_some() {
            return false;
        }
        match &self.reference_hash {
            Some(h) => h.len() == HASH_LEN,
            None => true,
        }
    }

    /// A copy holding the same values.
    pub fn duplicate(&self) -> (r: ContractMetadata)
        ensures
            r.spec@ == self.spec@,
            r.name@ == self.name@,
            r.symbol@ == self.symbol@,
            opt_str_view(r.icon) == opt_str_view(self.icon),
            opt_str_view(r.base_uri) == opt_str_view(self.base_uri),
            opt_str_view(r.reference) == opt_str_view(self.reference),
            opt_bytes_view(r.reference_hash) == opt_bytes_view(self.reference_hash),
    {
        ContractMetadata {
            spec: self.spec.clone(),
            name: self.name.clone(),
            symbol: self.symbol.clone(),
            icon: opt_str_copy(&self.icon),
            base_uri: opt_str_copy(&self.base_uri),
            reference: opt_str_copy(&self.reference),
            reference_hash: opt_bytes_copy(&self.reference_hash),
        }
    }
}

} // verus!
