//! The collectible contract: catalog curation, minting of eggs, evolution
//! through the stages, and storage-rent settlement.
use vstd::prelude::*;
use std::collections::HashMap;
use crate::catalog::{entry_at, MetadataCatalog};
use crate::decimal::{parse_decimal, parse_u64};
use crate::ledger::{with_id, without, Ledger};
use crate::metadata::{ContractMetadata, MetadataView, TokenMetadata, COOLDOWN_MS};
use vstd::string::StringExecFns;

verus! {

broadcast use vstd::std_specs::hash::group_hash_axioms;

/// The flat deposit that every mint and evolution must carry (one NEAR).
pub const MINIMUM_EARLY_DEPOSIT: u128 = 1000000000000000000000000;

/// The last evolution stage; a token at this stage cannot evolve.
pub const TERMINAL_STAGE: u64 = 3;

#[derive(PartialEq, Eq, Structural, Debug, Clone, Copy)]
pub enum ContractError {
    /// The contract state already exists.
    Initialization,
    /// The contract-level metadata is not valid.
    InvalidMetadata,
    /// The caller may not curate the catalog.
    Authorization,
    /// An unknown catalog type or position, token, or lineage.
    NotFound,
    /// The caller does not own the token.
    Ownership,
    /// The token may not evolve yet.
    Cooldown,
    /// The token is at the terminal stage.
    MaxStage,
    /// The attached deposit does not cover the cost.
    Payment,
}

/// What a successful mint or evolution hands back: the new token id and the
/// part of the deposit to return to the caller (zero for none).
#[derive(PartialEq, Eq, Structural, Debug, Clone, Copy)]
pub struct Receipt {
    pub token_id: u64,
    pub refund: u128,
}

/// A live token as the view methods show it.
#[derive(Debug, Clone, PartialEq, Eq)]
pub struct JsonToken {
    pub token_id: u64,
    pub owner_id: String,
    pub metadata: TokenMetadata,
}

/// Approval management that a token contract may offer on top of the ledger.
pub trait NonFungibleTokenCore {
    fn nft_approve(&mut self, token_id: u64, account_id: String, msg: Option<String>);

    fn nft_is_approved(&self, token_id: u64, approved_account_id: String, approval_id: Option<u64>);

    fn nft_revoke(&mut self, token_id: u64, account_id: String);

    fn nft_revoke_all(&mut self, token_id: u64);
}

/// The catalog type label holding the templates of evolution stage `level`.
pub open spec fn stage_label(level: nat) -> Seq<char> {
    if level == 0 {
        seq!['e', 'g', 'g']
    } else if level == 1 {
        seq!['m', 'o', 'n', 's', 't', 'e', 'r', '_', '1']
    } else if level == 2 {
        seq!['m', 'o', 'n', 's', 't', 'e', 'r', '_', '2']
    } else {
        seq!['m', 'o', 'n', 's', 't', 'e', 'r', '_', '3']
    }
}

/// The part of `attached` returned after the flat cost is paid; differences
/// of one unit or less are kept.
pub open spec fn refund_due(attached: u128) -> u128 {
    if attached - MINIMUM_EARLY_DEPOSIT > 1 {
        (attached - MINIMUM_EARLY_DEPOSIT) as u128
    } else {
        0
    }
}

/// The 1-based catalog position that a random byte selects among `count` templates.
pub open spec fn species_from_seed(seed: u8, count: nat) -> u64
    recommends
        count > 0,
{
    (seed as nat % count + 1) as u64
}

/// The time from which a token with metadata `m` may evolve.
pub open spec fn unlock_time(m: MetadataView) -> Option<u64> {
    match m.extra {
        Some(x) => parse_decimal(x),
        None => None,
    }
}

pub fn stage_label_string(level: u64) -> (r: String)
    requires
        level <= TERMINAL_STAGE,
    ensures
        r@ == stage_label(level as nat),
{
    if level == 0 {
        proof { reveal_strlit("egg"); }
        let r = String::from_str("egg");
        assert(r@ =~= stage_label(0));
        r
    } else if level == 1 {
        proof { reveal_strlit("monster_1"); }
        let r = String::from_str("monster_1");
        assert(r@ =~= stage_label(1));
        r
    } else if level == 2 {
        proof { reveal_strlit("monster_2"); }
        let r = String::from_str("monster_2");
        assert(r@ =~= stage_label(2));
        r
    } else {
        proof { reveal_strlit("monster_3"); }
        let r = String::from_str("monster_3");
        assert(r@ =~= stage_label(3));
        r
    }
}

/// Checks `attached` against the flat cost; on success, the amount to refund.
pub fn refund_deposit(attached: u128) -> (r: Result<u128, ContractError>)
    ensures
        attached < MINIMUM_EARLY_DEPOSIT ==> r == Err::<u128, ContractError>(ContractError::Payment),
        attached >= MINIMUM_EARLY_DEPOSIT ==> r == Ok::<u128, ContractError>(refund_due(attached)),
{
    if attached < MINIMUM_EARLY_DEPOSIT {
        return Err(ContractError::Payment);
    }
    let refund = attached - MINIMUM_EARLY_DEPOSIT;
    if refund > 1 {
        Ok(refund)
    } else {
        Ok(0)
    }
}

/// The 1-based catalog position that a random byte selects among `count` templates.
pub fn select_index_from_seed(seed: u8, count: u64) -> (r: u64)
    requires
        count > 0,
    ensures
        r == species_from_seed(seed, count as nat),
        1 <= r <= count,
{
    (seed as u64) % count + 1
}

/// A name for what `str::to_lowercase` makes of a text.
pub uninterp spec fn lower_of(s: Seq<char>) -> Seq<char>;

/// Relies on str::to_lowercase: the result depends on the characters alone.
#[verifier::external_body]
fn lowercase(s: &String) -> (r: String)
    ensures
        r@ == lower_of(s@),
{
    s.to_lowercase()
}

pub struct Contract {
    owner_id: String,
    tokens: Ledger,
    metadata_per_type: MetadataCatalog,
    egg_per_token_id: HashMap<u64, u64>,
    level_per_token_id: HashMap<u64, u64>,
    metadata: ContractMetadata,
    current_token_id: u64,
}

/// What a mint of catalog position `species` at the given deposit fails with, if anything.
pub open spec fn mint_error(c: Contract, species: u64, deposit: u128) -> Option<ContractError> {
    if entry_at(c.catalog().entries_or_empty(stage_label(0)), species) is None {
        Some(ContractError::NotFound)
    } else if deposit < MINIMUM_EARLY_DEPOSIT {
        Some(ContractError::Payment)
    } else {
        None
    }
}

/// `after` is `before` with id `id` allocated and bound to `receiver` as a
/// stage-0 token of catalog position `species`, stamped at `now`.
pub open spec fn minted(
    before: Contract,
    after: Contract,
    receiver: Seq<char>,
    species: u64,
    now: u64,
    id: u64,
) -> bool {
    &&& id == before.counter() + 1
    &&& after.counter() == id
    &&& before.owner_of(id) is None
    &&& before.meta_of(id) is None
    &&& before.level_of(id) is None
    &&& before.species_of(id) is None
    &&& after.owner_of(id) == Some(receiver)
    &&& after.meta_of(id) == Some(
        entry_at(before.catalog().entries_or_empty(stage_label(0)), species)->0.stamped(now),
    )
    &&& after.level_of(id) == Some(0u64)
    &&& after.species_of(id) == Some(species)
    &&& after.tokens_of(receiver) == with_id(before.tokens_of(receiver), id)
    &&& forall|i: u64| i != id ==> #[trigger] after.owner_of(i) == before.owner_of(i)
    &&& forall|i: u64| i != id ==> #[trigger] after.meta_of(i) == before.meta_of(i)
    &&& forall|i: u64| i != id ==> #[trigger] after.level_of(i) == before.level_of(i)
    &&& forall|i: u64| i != id ==> #[trigger] after.species_of(i) == before.species_of(i)
    &&& forall|a: Seq<char>| a != receiver ==> #[trigger] after.tokens_of(a) == before.tokens_of(a)
    &&& after.catalog() == before.catalog()
    &&& after.owner_view() == before.owner_view()
    &&& after.descriptor() == before.descriptor()
}

/// The outcome of a mint of catalog position `species`.
pub open spec fn mint_outcome(
    before: Contract,
    after: Contract,
    receiver: Seq<char>,
    species: u64,
    now: u64,
    deposit: u128,
    r: Result<Receipt, ContractError>,
) -> bool {
    match r {
        Ok(rc) => {
            &&& mint_error(before, species, deposit) is None
            &&& rc.refund == refund_due(deposit)
            &&& minted(before, after, receiver, species, now, rc.token_id)
        },
        Err(e) => mint_error(before, species, deposit) == Some(e) && after == before,
    }
}

/// The outcome of a mint whose egg template is chosen by the random byte `seed`.
pub open spec fn mint_egg_outcome(
    before: Contract,
    after: Contract,
    receiver: Seq<char>,
    seed: u8,
    now: u64,
    deposit: u128,
    r: Result<Receipt, ContractError>,
) -> bool {
    let n = before.catalog().entries_or_empty(stage_label(0)).len();
    if n == 0 {
        r == Err::<Receipt, ContractError>(ContractError::NotFound) && after == before
    } else {
        mint_outcome(before, after, receiver, species_from_seed(seed, n), now, deposit, r)
    }
}

/// What an evolution of token `id` fails with, if anything. The checks come in
/// this order: cooldown, caller is the owner, terminal stage, receiver is the
/// owner, catalog, deposit.
pub open spec fn evolve_error(
    c: Contract,
    id: u64,
    receiver: Seq<char>,
    caller: Seq<char>,
    now: u64,
    deposit: u128,
) -> Option<ContractError> {
    match c.meta_of(id) {
        None => Some(ContractError::NotFound),
        Some(m) => match unlock_time(m) {
            None => Some(ContractError::NotFound),
            Some(t) => if now < t {
                Some(ContractError::Cooldown)
            } else {
                match c.owner_of(id) {
                    None => Some(ContractError::NotFound),
                    Some(o) => if o != caller {
                        Some(ContractError::Ownership)
                    } else {
                        match (c.level_of(id), c.species_of(id)) {
                            (Some(l), Some(s)) => if l >= TERMINAL_STAGE {
                                Some(ContractError::MaxStage)
                            } else if receiver != o {
                                Some(ContractError::Ownership)
                            } else if entry_at(
                                c.catalog().entries_or_empty(stage_label((l + 1) as nat)),
                                s,
                            ) is None {
                                Some(ContractError::NotFound)
                            } else if deposit < MINIMUM_EARLY_DEPOSIT {
                                Some(ContractError::Payment)
                            } else {
                                None
                            },
                            _ => Some(ContractError::NotFound),
                        }
                    },
                }
            },
        },
    }
}

/// `after` is `before` with token `id` retired and its lineage carried to the
/// new id `new_id` at the next stage, stamped at `now`.
pub open spec fn evolved(before: Contract, after: Contract, id: u64, new_id: u64, now: u64) -> bool {
    let o = before.owner_of(id)->0;
    let l = before.level_of(id)->0;
    let s = before.species_of(id)->0;
    &&& before.owner_of(id) is Some
    &&& new_id == before.counter() + 1
    &&& after.counter() == new_id
    &&& before.owner_of(new_id) is None
    &&& before.meta_of(new_id) is None
    &&& before.level_of(new_id) is None
    &&& before.species_of(new_id) is None
    &&& after.owner_of(id) is None
    &&& after.meta_of(id) is None
    &&& after.level_of(id) is None
    &&& after.species_of(id) is None
    &&& after.owner_of(new_id) == Some(o)
    &&& after.meta_of(new_id) == Some(
        entry_at(before.catalog().entries_or_empty(stage_label((l + 1) as nat)), s)->0.stamped(now),
    )
    &&& after.level_of(new_id) == Some((l + 1) as u64)
    &&& after.species_of(new_id) == Some(s)
    &&& after.tokens_of(o) == with_id(without(before.tokens_of(o), id), new_id)
    &&& forall|i: u64| i != id && i != new_id ==> #[trigger] after.owner_of(i) == before.owner_of(i)
    &&& forall|i: u64| i != id && i != new_id ==> #[trigger] after.meta_of(i) == before.meta_of(i)
    &&& forall|i: u64| i != id && i != new_id ==> #[trigger] after.level_of(i) == before.level_of(i)
    &&& forall|i: u64| i != id && i != new_id ==> #[trigger] after.species_of(i) == before.species_of(i)
    &&& forall|a: Seq<char>| a != o ==> #[trigger] after.tokens_of(a) == before.tokens_of(a)
    &&& after.catalog() == before.catalog()
    &&& after.owner_view() == before.owner_view()
    &&& after.descriptor() == before.descriptor()
}

/// The outcome of an evolution of token `id`.
pub open spec fn evolve_outcome(
    before: Contract,
    after: Contract,
    id: u64,
    receiver: Seq<char>,
    caller: Seq<char>,
    now: u64,
    deposit: u128,
    r: Result<Receipt, ContractError>,
) -> bool {
    match r {
        Ok(rc) => {
            &&& evolve_error(before, id, receiver, caller, now, deposit) is None
            &&& rc.refund == refund_due(deposit)
            &&& evolved(before, after, id, rc.token_id, now)
        },
        Err(e) => evolve_error(before, id, receiver, caller, now, deposit) == Some(e) && after
            == before,
    }
}

/// The outcome of adding template `m` under the (already lower-case) label `label`.
pub open spec fn add_outcome(
    before: Contract,
    after: Contract,
    caller: Seq<char>,
    label: Seq<char>,
    m: MetadataView,
    r: Result<(), ContractError>,
) -> bool {
    if caller != before.owner_view() {
        r == Err::<(), ContractError>(ContractError::Authorization) && after == before
    } else {
        &&& r is Ok
        &&& after.catalog().entries(label) == Some(
            crate::catalog::with_template(before.catalog().entries_or_empty(label), m),
        )
        &&& forall|l: Seq<char>| l != label ==> #[trigger] after.catalog().entries(l)
            == before.catalog().entries(l)
        &&& after.catalog().wf()
        &&& after.catalog().labels() == if before.catalog().entries(label) is Some {
            before.catalog().labels()
        } else {
            before.catalog().labels().push(label)
        }
        &&& forall|i: u64| #[trigger] after.owner_of(i) == before.owner_of(i)
        &&& forall|i: u64| #[trigger] after.meta_of(i) == before.meta_of(i)
        &&& forall|i: u64| #[trigger] after.level_of(i) == before.level_of(i)
        &&& forall|i: u64| #[trigger] after.species_of(i) == before.species_of(i)
        &&& forall|a: Seq<char>| #[trigger] after.tokens_of(a) == before.tokens_of(a)
        &&& after.counter() == before.counter()
        &&& after.owner_view() == before.owner_view()
        &&& after.descriptor() == before.descriptor()
    }
}

/// The part of `s` from position `start`, at most `limit` long.
pub open spec fn page(s: Seq<u64>, start: nat, limit: nat) -> Seq<u64> {
    if start >= s.len() {
        Seq::empty()
    } else if start + limit >= s.len() {
        s.subrange(start as int, s.len() as int)
    } else {
        s.subrange(start as int, (start + limit) as int)
    }
}

impl Contract {
    pub closed spec fn wf(&self) -> bool {
        &&& self.tokens.wf()
        &&& self.metadata_per_type.wf()
        &&& forall|i: u64| #[trigger] self.tokens.owner(i) is Some ==> i <= self.current_token_id
        &&& forall|i: u64| (#[trigger] self.tokens.meta(i) is Some) == (self.tokens.owner(i) is Some)
        &&& forall|i: u64| (#[trigger] self.level_per_token_id@.contains_key(i)) == (self.tokens.owner(i) is Some)
        &&& forall|i: u64| (#[trigger] self.egg_per_token_id@.contains_key(i)) == (self.tokens.owner(i) is Some)
        &&& forall|a: Seq<char>, i: u64| #[trigger] self.tokens.index(a).contains(i) ==> self.tokens.owner(i) == Some(a)
        &&& forall|i: u64| #[trigger] self.tokens.meta(i) matches Some(m) ==> unlock_time(m) is Some
        &&& forall|i: u64| #[trigger] self.level_per_token_id@.contains_key(i) ==> self.level_per_token_id@[i] <= TERMINAL_STAGE
    }

    /// A token id in an owner's index belongs to that owner.
    pub proof fn lemma_index_owned(&self, a: Seq<char>, i: u64)
        requires
            self.wf(),
            self.tokens_of(a).contains(i),
        ensures
            self.owner_of(i) == Some(a),
    {
    }

    /// A live token has metadata with an unlock time, a stage and a species.
    pub proof fn lemma_live(&self, i: u64)
        requires
            self.wf(),
            self.owner_of(i) is Some,
        ensures
            self.meta_of(i) matches Some(m) && unlock_time(m) is Some,
            self.level_of(i) matches Some(l) && l <= TERMINAL_STAGE,
            self.species_of(i) is Some,
    {
    }

    /// An id without an owner has no metadata, stage or species, and is in no
    /// owner's index; every recorded stage is at most the terminal one.
    pub proof fn lemma_unowned(&self, i: u64)
        requires
            self.wf(),
            self.owner_of(i) is None,
        ensures
            self.meta_of(i) is None,
            self.level_of(i) is None,
            self.species_of(i) is None,
            forall|a: Seq<char>| !(#[trigger] self.tokens_of(a)).contains(i),
    {
    }

    /// No owner's index holds an id twice.
    pub proof fn lemma_tokens_distinct(&self, a: Seq<char>)
        requires
            self.wf(),
        ensures
            self.tokens_of(a).no_duplicates(),
    {
        self.tokens.lemma_index_distinct(a);
    }

    /// Every recorded stage is at most the terminal one.
    pub proof fn lemma_stage_bound(&self, i: u64)
        requires
            self.wf(),
            self.level_of(i) is Some,
        ensures
            self.level_of(i)->0 <= TERMINAL_STAGE,
    {
    }

    /// The account that curates the catalog.
    pub closed spec fn owner_view(&self) -> Seq<char> {
        self.owner_id@
    }

    /// The last allocated token id (zero before the first).
    pub closed spec fn counter(&self) -> u64 {
        self.current_token_id
    }

    pub closed spec fn owner_of(&self, id: u64) -> Option<Seq<char>> {
        self.tokens.owner(id)
    }

    pub closed spec fn meta_of(&self, id: u64) -> Option<MetadataView> {
        self.tokens.meta(id)
    }

    pub closed spec fn tokens_of(&self, account: Seq<char>) -> Seq<u64> {
        self.tokens.index(account)
    }

    /// The evolution stage of the lineage that token `id` carries.
    pub closed spec fn level_of(&self, id: u64) -> Option<u64> {
        if self.level_per_token_id@.contains_key(id) {
            Some(self.level_per_token_id@[id])
        } else {
            None
        }
    }

    /// The catalog position chosen when the lineage of token `id` was minted.
    pub closed spec fn species_of(&self, id: u64) -> Option<u64> {
        if self.egg_per_token_id@.contains_key(id) {
            Some(self.egg_per_token_id@[id])
        } else {
            None
        }
    }

    pub closed spec fn catalog(&self) -> MetadataCatalog {
        self.metadata_per_type
    }

    pub closed spec fn descriptor(&self) -> ContractMetadata {
        self.metadata
    }
}

impl Contract {
    /// Sets up the contract state; `state_exists` tells whether it was set up before.
    pub fn new(owner_id: String, metadata: ContractMetadata, state_exists: bool) -> (r: Result<
        Contract,
        ContractError,
    >)
        ensures
            state_exists ==> r is Err && r->Err_0 == ContractError::Initialization,
            !state_exists && !metadata.valid() ==> r is Err && r->Err_0
                == ContractError::InvalidMetadata,
            !state_exists && metadata.valid() ==> r is Ok,
            r matches Ok(c) ==> {
                &&& c.wf()
                &&& c.owner_view() == owner_id@
                &&& c.descriptor() == metadata
                &&& c.counter() == 0
                &&& forall|i: u64| #[trigger] c.owner_of(i) is None
                &&& forall|i: u64| #[trigger] c.meta_of(i) is None
                &&& forall|i: u64| #[trigger] c.level_of(i) is None
                &&& forall|i: u64| #[trigger] c.species_of(i) is None
                &&& forall|a: Seq<char>| #[trigger] c.tokens_of(a) == Seq::<u64>::empty()
                &&& forall|l: Seq<char>| #[trigger] c.catalog().entries(l) is None
                &&& c.catalog().labels() == Seq::<Seq<char>>::empty()
            },
    {
        if state_exists {
            return Err(ContractError::Initialization);
        }
        if !metadata.is_valid() {
            return Err(ContractError::InvalidMetadata);
        }
        let c = Contract {
            owner_id,
            tokens: Ledger::new(),
            metadata_per_type: MetadataCatalog::new(),
            egg_per_token_id: HashMap::new(),
            level_per_token_id: HashMap::new(),
            metadata,
            current_token_id: 0,
        };
        assert forall|a: Seq<char>, i: u64| #[trigger] c.tokens.index(a).contains(i)
            implies c.tokens.owner(i) == Some(a) by {
            assert(c.tokens.index(a) == Seq::<u64>::empty());
        }
        Ok(c)
    }

    /// Sets up the contract state with the default contract-level metadata.
    pub fn new_default_meta(owner_id: String, state_exists: bool) -> (r: Result<Contract, ContractError>)
        ensures
            state_exists ==> r is Err && r->Err_0 == ContractError::Initialization,
            !state_exists ==> r is Ok,
            r matches Ok(c) ==> {
                &&& c.wf()
                &&& c.owner_view() == owner_id@
                &&& c.descriptor().spec@ == crate::metadata::nft_metadata_spec()
                &&& c.descriptor().name@ == seq!['N', 'e', 'a', 'r', 'm', 'o', 'n']
                &&& c.descriptor().symbol@ == seq!['N', 'M', 'O', 'N']
                &&& c.descriptor().icon is None
                &&& c.descriptor().base_uri is None
                &&& c.descriptor().reference is None
                &&& c.descriptor().reference_hash is None
                &&& c.counter() == 0
                &&& forall|i: u64| #[trigger] c.owner_of(i) is None
                &&& forall|i: u64| #[trigger] c.meta_of(i) is None
                &&& forall|i: u64| #[trigger] c.level_of(i) is None
                &&& forall|i: u64| #[trigger] c.species_of(i) is None
                &&& forall|a: Seq<char>| #[trigger] c.tokens_of(a) == Seq::<u64>::empty()
                &&& forall|l: Seq<char>| #[trigger] c.catalog().entries(l) is None
            },
    {
        proof {
            reveal_strlit("nft-1.0.0");
            reveal_strlit("Nearmon");
            reveal_strlit("NMON");
        }
        let metadata = ContractMetadata {
            spec: String::from_str(crate::metadata::NFT_METADATA_SPEC),
            name: String::from_str("Nearmon"),
            symbol: String::from_str("NMON"),
            icon: None,
            base_uri: None,
            reference: None,
            reference_hash: None,
        };
        assert(metadata.spec@ =~= crate::metadata::nft_metadata_spec());
        assert(metadata.name@ =~= seq!['N', 'e', 'a', 'r', 'm', 'o', 'n']);
        assert(metadata.symbol@ =~= seq!['N', 'M', 'O', 'N']);
        Self::new(owner_id, metadata, state_exists)
    }

    /// Allocates the next token id: one past the last, never reused.
    fn increment_token_id(&mut self) -> (id: u64)
        requires
            old(self).current_token_id < u64::MAX,
        ensures
            id == old(self).current_token_id + 1,
            *final(self) == (Contract { current_token_id: id, ..*old(self) }),
    {
        let id = self.current_token_id + 1;
        self.current_token_id = id;
        id
    }

    /// Mints a stage-0 token of catalog position `species` (1-based) of the
    /// egg templates for `receiver_id`, at time `now` with `deposit` attached.
    pub fn mint_with_species(&mut self, receiver_id: String, species: u64, now: u64, deposit: u128) -> (r:
        Result<Receipt, ContractError>)
        requires
            old(self).wf(),
            old(self).counter() < u64::MAX,
            now <= u64::MAX - COOLDOWN_MS,
        ensures
            final(self).wf(),
            mint_outcome(*old(self), *final(self), receiver_id@, species, now, deposit, r),
    {
        let label = stage_label_string(0);
        let template = match self.metadata_per_type.select(&label, species) {
            Some(t) => t,
            None => return Err(ContractError::NotFound),
        };
        let refund = match refund_deposit(deposit) {
            Ok(x) => x,
            Err(e) => return Err(e),
        };
        let stamped = template.stamped(now);
        proof {
            crate::decimal::lemma_parse_decimal((now + COOLDOWN_MS) as u64);
        }
        let ghost before = *self;
        let id = self.increment_token_id();
        self.tokens.insert_owner(id, receiver_id.clone());
        self.egg_per_token_id.insert(id, species);
        self.level_per_token_id.insert(id, 0);
        self.tokens.insert_metadata(id, stamped);
        self.tokens.add_to_owner_index(receiver_id, id);
        proof {
            assert(before.owner_of(id) is None);
            assert forall|a: Seq<char>, i: u64| #[trigger] self.tokens.index(a).contains(i)
                implies self.tokens.owner(i) == Some(a) by {
                if a == receiver_id@ && i != id {
                    crate::ledger::lemma_with_id(before.tokens.index(a), id, i);
                    assert(before.tokens.index(a).contains(i));
                }
                if a == receiver_id@ && i == id {
                } else if a != receiver_id@ {
                    assert(before.tokens.index(a).contains(i));
                }
            }
        }
        Ok(Receipt { token_id: id, refund })
    }

    /// Mints a stage-0 token for `receiver_id`, the egg template chosen by the
    /// random byte `seed` among those in the catalog.
    pub fn nft_mint_egg(&mut self, receiver_id: String, seed: u8, now: u64, deposit: u128) -> (r:
        Result<Receipt, ContractError>)
        requires
            old(self).wf(),
            old(self).counter() < u64::MAX,
            now <= u64::MAX - COOLDOWN_MS,
        ensures
            final(self).wf(),
            mint_egg_outcome(*old(self), *final(self), receiver_id@, seed, now, deposit, r),
    {
        let label = stage_label_string(0);
        let count = self.metadata_per_type.count(&label);
        if count == 0 {
            return Err(ContractError::NotFound);
        }
        let species = select_index_from_seed(seed, count as u64);
        self.mint_with_species(receiver_id, species, now, deposit)
    }

    /// Evolves token `token_id` of `caller` to the next stage at time `now`,
    /// with `deposit` attached. The token is retired and its lineage goes on
    /// under a new id, bound to the owner.
    ///
    /// `receiver_id` must name the owner too, else the call fails with the
    /// ownership error (after the terminal-stage check). This settles an open
    /// design question deliberately: left unchecked, a receiver other than the
    /// owner would be used as the index key of the retired token while the new
    /// token went to the owner, leaving a stale entry in the owner's index.
    pub fn nft_evolve(
        &mut self,
        token_id: u64,
        receiver_id: String,
        caller: String,
        now: u64,
        deposit: u128,
    ) -> (r: Result<Receipt, ContractError>)
        requires
            old(self).wf(),
            old(self).counter() < u64::MAX,
            now <= u64::MAX - COOLDOWN_MS,
        ensures
            final(self).wf(),
            evolve_outcome(*old(self), *final(self), token_id, receiver_id@, caller@, now, deposit, r),
    {
        let current = match self.tokens.lookup_metadata(token_id) {
            Some(m) => m,
            None => return Err(ContractError::NotFound),
        };
        let unlock = match &current.extra {
            Some(x) => parse_u64(x),
            None => None,
        };
        let unlock = match unlock {
            Some(t) => t,
            None => return Err(ContractError::NotFound),
        };
        if now < unlock {
            return Err(ContractError::Cooldown);
        }
        let owner = match self.tokens.lookup_owner(token_id) {
            Some(o) => o,
            None => return Err(ContractError::NotFound),
        };
        if owner != caller {
            return Err(ContractError::Ownership);
        }
        let level = match self.level_per_token_id.get(&token_id) {
            Some(l) => *l,
            None => return Err(ContractError::NotFound),
        };
        let species = match self.egg_per_token_id.get(&token_id) {
            Some(s) => *s,
            None => return Err(ContractError::NotFound),
        };
        if level >= TERMINAL_STAGE {
            return Err(ContractError::MaxStage);
        }
        if receiver_id != owner {
            return Err(ContractError::Ownership);
        }
        let label = stage_label_string(level + 1);
        let template = match self.metadata_per_type.select(&label, species) {
            Some(t) => t,
            None => return Err(ContractError::NotFound),
        };
        let refund = match refund_deposit(deposit) {
            Ok(x) => x,
            Err(e) => return Err(e),
        };
        let stamped = template.stamped(now);
        proof {
            crate::decimal::lemma_parse_decimal((now + COOLDOWN_MS) as u64);
        }
        let ghost before = *self;
        assert(token_id <= before.current_token_id);
        self.tokens.remove_metadata(token_id);
        self.tokens.remove_owner(token_id);
        self.tokens.remove_from_owner_index(&owner, token_id);
        self.egg_per_token_id.remove(&token_id);
        self.level_per_token_id.remove(&token_id);
        let new_id = self.increment_token_id();
        self.tokens.insert_owner(new_id, owner.clone());
        self.egg_per_token_id.insert(new_id, species);
        self.level_per_token_id.insert(new_id, level + 1);
        self.tokens.insert_metadata(new_id, stamped);
        self.tokens.add_to_owner_index(owner, new_id);
        proof {
            let o = before.tokens.owner(token_id)->0;
            assert forall|a: Seq<char>, i: u64| #[trigger] self.tokens.index(a).contains(i)
                implies self.tokens.owner(i) == Some(a) by {
                if a == o {
                    crate::ledger::lemma_with_id(without(before.tokens.index(a), token_id), new_id, i);
                    crate::ledger::lemma_without(before.tokens.index(a), token_id);
                    if i != new_id {
                        assert(before.tokens.index(a).contains(i));
                    }
                } else {
                    assert(before.tokens.index(a).contains(i));
                    assert(i != token_id);
                }
            }
            assert(self.egg_per_token_id@.contains_key(new_id));
        }
        Ok(Receipt { token_id: new_id, refund })
    }

    /// Adds template `metadata` under the lower-case label `lower_type`; only
    /// the contract owner may.
    pub fn add_metadata_normalized(&mut self, caller: &String, lower_type: String, metadata: TokenMetadata) -> (r:
        Result<(), ContractError>)
        requires
            old(self).wf(),
        ensures
            final(self).wf(),
            add_outcome(*old(self), *final(self), caller@, lower_type@, metadata@, r),
    {
        if *caller != self.owner_id {
            return Err(ContractError::Authorization);
        }
        self.metadata_per_type.add(lower_type, metadata);
        Ok(())
    }

    /// Adds template `metadata` under the lower-case form of `metadata_type`;
    /// only the contract owner may.
    pub fn add_metadata(&mut self, caller: &String, metadata_type: &String, metadata: TokenMetadata) -> (r:
        Result<(), ContractError>)
        requires
            old(self).wf(),
        ensures
            final(self).wf(),
            add_outcome(*old(self), *final(self), caller@, lower_of(metadata_type@), metadata@, r),
    {
        let lower_type = lowercase(metadata_type);
        self.add_metadata_normalized(caller, lower_type, metadata)
    }

    /// The live token `token_id`, with its owner and metadata.
    pub fn nft_token(&self, token_id: u64) -> (r: Option<JsonToken>)
        requires
            self.wf(),
        ensures
            match r {
                Some(t) => {
                    &&& t.token_id == token_id
                    &&& self.owner_of(token_id) == Some(t.owner_id@)
                    &&& self.meta_of(token_id) == Some(t.metadata@)
                },
                None => self.owner_of(token_id) is None,
            },
    {
        let owner_id = match self.tokens.lookup_owner(token_id) {
            Some(o) => o,
            None => return None,
        };
        match self.tokens.lookup_metadata(token_id) {
            Some(metadata) => Some(JsonToken { token_id, owner_id, metadata }),
            None => None,
        }
    }

    /// The tokens of `account_id` from position `from_index` (default 0) of its
    /// index, at most `limit` (default 0) of them.
    pub fn nft_tokens_for_owner(&self, account_id: &String, from_index: Option<u128>, limit: Option<u64>) -> (r:
        Vec<JsonToken>)
        requires
            self.wf(),
        ensures
            ({
                let ids = page(
                    self.tokens_of(account_id@),
                    match from_index {
                        Some(x) => x as nat,
                        None => 0,
                    },
                    match limit {
                        Some(x) => x as nat,
                        None => 0,
                    },
                );
                &&& r@.len() == ids.len()
                &&& forall|k1: int, k2: int| 0 <= k1 < k2 < r@.len() ==> (#[trigger] r@[k1]).token_id
                    != (#[trigger] r@[k2]).token_id
                &&& forall|k: int| 0 <= k < ids.len() ==> {
                    &&& (#[trigger] r@[k]).token_id == ids[k]
                    &&& r@[k].owner_id@ == account_id@
                    &&& self.meta_of(ids[k]) == Some(r@[k].metadata@)
                }
            }),
    {
        let ids = self.tokens.list_owner_index(account_id);
        let start: u128 = match from_index {
            Some(x) => x,
            None => 0,
        };
        let count: u64 = match limit {
            Some(x) => x,
            None => 0,
        };
        let mut r: Vec<JsonToken> = Vec::new();
        if start >= ids.len() as u128 {
            return r;
        }
        let first = start as usize;
        let last: usize = if (count as u128) < (ids.len() as u128) - start {
            first + count as usize
        } else {
            ids.len()
        };
        let ghost want = page(self.tokens_of(account_id@), start as nat, count as nat);
        assert(want =~= ids@.subrange(first as int, last as int));
        proof {
            self.tokens.lemma_index_distinct(account_id@);
            assert forall|k1: int, k2: int| 0 <= k1 < k2 < want.len() implies want[k1] != want[k2] by {
                assert(want[k1] == ids@[first + k1] && want[k2] == ids@[first + k2]);
            }
        }
        let mut i: usize = first;
        while i < last
            invariant
                first <= i <= last <= ids@.len(),
                ids@ == self.tokens_of(account_id@),
                want == ids@.subrange(first as int, last as int),
                self.wf(),
                r@.len() == i - first,
                forall|k: int| 0 <= k < r@.len() ==> {
                    &&& (#[trigger] r@[k]).token_id == want[k]
                    &&& r@[k].owner_id@ == account_id@
                    &&& self.meta_of(want[k]) == Some(r@[k].metadata@)
                },
            decreases last - i,
        {
            let id = ids[i];
            assert(self.tokens.index(account_id@).contains(id)) by {
                assert(ids@[i as int] == id);
            }
            match self.nft_token(id) {
                Some(t) => {
                    r.push(t);
                },
                None => {},
            }
            i = i + 1;
        }
        r
    }

    /// The account that curates the catalog.
    pub fn get_owner(&self) -> (r: String)
        ensures
            r@ == self.owner_view(),
    {
        self.owner_id.clone()
    }

    /// The catalog's type labels, in registration order.
    pub fn metadata_type_list(&self) -> (r: Vec<String>)
        requires
            self.wf(),
        ensures
            crate::table::string_views(r@) == self.catalog().labels(),
            crate::table::string_views(r@).no_duplicates(),
            forall|l: Seq<char>| #[trigger] crate::table::string_views(r@).contains(l)
                <==> self.catalog().entries(l) is Some,
    {
        proof {
            self.metadata_per_type.lemma_wf();
        }
        self.metadata_per_type.label_list()
    }

    /// The templates under `metadata_type`, as given; empty for an unknown type.
    pub fn metadata_per_type_list(&self, metadata_type: &String) -> (r: Vec<TokenMetadata>)
        requires
            self.wf(),
        ensures
            crate::catalog::metadata_views(r@) == self.catalog().entries_or_empty(metadata_type@),
            crate::catalog::metadata_views(r@).no_duplicates(),
    {
        proof {
            self.metadata_per_type.lemma_wf();
            assert(self.metadata_per_type.entries_or_empty(metadata_type@).no_duplicates());
        }
        self.metadata_per_type.list(metadata_type)
    }

    /// The evolution stage of the lineage that token `token_id` carries.
    pub fn level_per_token(&self, token_id: u64) -> (r: Result<u64, ContractError>)
        requires
            self.wf(),
        ensures
            match self.level_of(token_id) {
                Some(l) => r == Ok::<u64, ContractError>(l),
                None => r == Err::<u64, ContractError>(ContractError::NotFound),
            },
            r matches Ok(l) ==> l <= TERMINAL_STAGE,
    {
        match self.level_per_token_id.get(&token_id) {
            Some(l) => Ok(*l),
            None => Err(ContractError::NotFound),
        }
    }

    /// The catalog position that the lineage of token `token_id` started from.
    pub fn species_per_token(&self, token_id: u64) -> (r: Result<u64, ContractError>)
        ensures
            match self.species_of(token_id) {
                Some(s) => r == Ok::<u64, ContractError>(s),
                None => r == Err::<u64, ContractError>(ContractError::NotFound),
            },
    {
        match self.egg_per_token_id.get(&token_id) {
            Some(s) => Ok(*s),
            None => Err(ContractError::NotFound),
        }
    }

    /// The last allocated token id.
    pub fn current_token_id(&self) -> (r: u64)
        ensures
            r == self.counter(),
    {
        self.current_token_id
    }

    /// The contract-level metadata.
    pub fn nft_metadata(&self) -> (r: ContractMetadata)
        ensures
            r.spec@ == self.descriptor().spec@,
            r.name@ == self.descriptor().name@,
            r.symbol@ == self.descriptor().symbol@,
            crate::metadata::opt_str_view(r.icon) == crate::metadata::opt_str_view(self.descriptor().icon),
            crate::metadata::opt_str_view(r.base_uri) == crate::metadata::opt_str_view(
                self.descriptor().base_uri,
            ),
            crate::metadata::opt_str_view(r.reference) == crate::metadata::opt_str_view(
                self.descriptor().reference,
            ),
            crate::metadata::opt_bytes_view(r.reference_hash) == crate::metadata::opt_bytes_view(
                self.descriptor().reference_hash,
            ),
    {
        self.metadata.duplicate()
    }
}

} // verus!
