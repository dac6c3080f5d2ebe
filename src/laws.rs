//! Properties of the contract that relate its operations, proved from their contracts.
use vstd::prelude::*;
use crate::catalog::{entry_at, with_template};
use crate::contract::{
    add_outcome, evolve_error, evolve_outcome, mint_egg_outcome, mint_outcome, unlock_time, Contract, ContractError,
    Receipt, MINIMUM_EARLY_DEPOSIT, TERMINAL_STAGE,
};
use crate::ledger::{lemma_with_id, lemma_without};
use crate::metadata::MetadataView;

verus! {

/// One call that may allocate a token id, with its arguments.
pub enum Call {
    /// A mint of an explicit egg position.
    Mint { receiver: Seq<char>, species: u64, now: u64, deposit: u128 },
    /// A mint whose egg is chosen by a random byte.
    MintEgg { receiver: Seq<char>, seed: u8, now: u64, deposit: u128 },
    /// An evolution of token `id`.
    Evolve { id: u64, receiver: Seq<char>, caller: Seq<char>, now: u64, deposit: u128 },
}

/// `after` and `r` are what `call` made of `before`.
pub open spec fn step(before: Contract, after: Contract, call: Call, r: Result<Receipt, ContractError>) -> bool {
    match call {
        Call::Mint { receiver, species, now, deposit } => mint_outcome(
            before,
            after,
            receiver,
            species,
            now,
            deposit,
            r,
        ),
        Call::MintEgg { receiver, seed, now, deposit } => mint_egg_outcome(
            before,
            after,
            receiver,
            seed,
            now,
            deposit,
            r,
        ),
        Call::Evolve { id, receiver, caller, now, deposit } => evolve_outcome(
            before,
            after,
            id,
            receiver,
            caller,
            now,
            deposit,
            r,
        ),
    }
}

/// A call leaves the state alone when it fails; when it succeeds it
/// allocates a fresh id one past the counter, which becomes the counter.
proof fn lemma_step(before: Contract, after: Contract, call: Call, r: Result<Receipt, ContractError>)
    requires
        step(before, after, call, r),
    ensures
        r is Err ==> after == before,
        r matches Ok(rc) ==> rc.token_id == before.counter() + 1 && after.counter() == rc.token_id
            && before.owner_of(rc.token_id) is None,
{
}

proof fn lemma_counter_monotone(
    states: Seq<Contract>,
    calls: Seq<Call>,
    results: Seq<Result<Receipt, ContractError>>,
    a: int,
    b: int,
)
    requires
        states.len() == calls.len() + 1,
        results.len() == calls.len(),
        forall|k: int| 0 <= k < calls.len() ==> step(#[trigger] states[k], states[k + 1], calls[k], results[k]),
        0 <= a <= b < states.len(),
    ensures
        states[a].counter() <= states[b].counter(),
    decreases b - a,
{
    if a < b {
        lemma_counter_monotone(states, calls, results, a, b - 1);
        let k = b - 1;
        assert(step(states[k], states[k + 1], calls[k], results[k]));
        lemma_step(states[k], states[k + 1], calls[k], results[k]);
    }
}

/// Over any run of mints and evolutions, the ids handed out are fresh and
/// strictly increasing in the order of the calls, so no id is handed out
/// twice and a retired id is never reused.
pub proof fn lemma_ids_increase(
    states: Seq<Contract>,
    calls: Seq<Call>,
    results: Seq<Result<Receipt, ContractError>>,
    i: int,
    j: int,
)
    requires
        states.len() == calls.len() + 1,
        results.len() == calls.len(),
        forall|k: int| 0 <= k < calls.len() ==> step(#[trigger] states[k], states[k + 1], calls[k], results[k]),
        0 <= i < j < calls.len(),
        results[i] is Ok,
        results[j] is Ok,
    ensures
        results[i]->Ok_0.token_id < results[j]->Ok_0.token_id,
        states[i].owner_of(results[i]->Ok_0.token_id) is None,
        states[j].owner_of(results[j]->Ok_0.token_id) is None,
{
    assert(step(states[i], states[i + 1], calls[i], results[i]));
    assert(step(states[j], states[j + 1], calls[j], results[j]));
    lemma_step(states[i], states[i + 1], calls[i], results[i]);
    lemma_step(states[j], states[j + 1], calls[j], results[j]);
    lemma_counter_monotone(states, calls, results, i + 1, j);
}

/// An evolution before the token's unlock time fails with a cooldown error
/// and changes nothing.
pub proof fn lemma_evolve_cooldown(
    before: Contract,
    after: Contract,
    id: u64,
    receiver: Seq<char>,
    caller: Seq<char>,
    now: u64,
    deposit: u128,
    r: Result<Receipt, ContractError>,
    m: MetadataView,
)
    requires
        evolve_outcome(before, after, id, receiver, caller, now, deposit, r),
        before.meta_of(id) == Some(m),
        unlock_time(m) matches Some(t) && now < t,
    ensures
        r == Err::<Receipt, ContractError>(ContractError::Cooldown),
        after == before,
{
}

/// Once the cooldown has passed, an evolution by anyone but the owner fails
/// with an ownership error and changes nothing.
pub proof fn lemma_evolve_not_owner(
    before: Contract,
    after: Contract,
    id: u64,
    receiver: Seq<char>,
    caller: Seq<char>,
    now: u64,
    deposit: u128,
    r: Result<Receipt, ContractError>,
)
    requires
        before.wf(),
        evolve_outcome(before, after, id, receiver, caller, now, deposit, r),
        before.owner_of(id) matches Some(o) && o != caller,
        before.meta_of(id) matches Some(m) && unlock_time(m) matches Some(t) && t <= now,
    ensures
        r == Err::<Receipt, ContractError>(ContractError::Ownership),
        after == before,
{
}

/// After a successful evolution the old id is gone from the ledger (owner,
/// metadata and every owner's index), and the new id carries the lineage one
/// stage further with the same species and owner.
pub proof fn lemma_evolve_moves_lineage(
    before: Contract,
    after: Contract,
    id: u64,
    receiver: Seq<char>,
    caller: Seq<char>,
    now: u64,
    deposit: u128,
    r: Result<Receipt, ContractError>,
)
    requires
        before.wf(),
        after.wf(),
        evolve_outcome(before, after, id, receiver, caller, now, deposit, r),
        r is Ok,
    ensures
        ({
            let new_id = r->Ok_0.token_id;
            &&& new_id != id
            &&& after.owner_of(id) is None
            &&& after.meta_of(id) is None
            &&& forall|a: Seq<char>| !(#[trigger] after.tokens_of(a)).contains(id)
            &&& after.owner_of(new_id) == before.owner_of(id)
            &&& after.tokens_of(before.owner_of(id)->0).contains(new_id)
            &&& before.level_of(id) matches Some(l) && after.level_of(new_id) == Some((l + 1) as u64)
            &&& after.species_of(new_id) == before.species_of(id)
        }),
{
    let new_id = r->Ok_0.token_id;
    let o = before.owner_of(id)->0;
    assert forall|a: Seq<char>| !(#[trigger] after.tokens_of(a)).contains(id) by {
        if after.tokens_of(a).contains(id) {
            after.lemma_index_owned(a, id);
        }
    }
    lemma_with_id(crate::ledger::without(before.tokens_of(o), id), new_id, new_id);
}

/// A token at the terminal stage whose cooldown has passed cannot evolve:
/// its owner's attempt fails with a max-stage error and changes nothing,
/// whatever receiver and deposit it names.
pub proof fn lemma_evolve_terminal(
    before: Contract,
    after: Contract,
    id: u64,
    receiver: Seq<char>,
    caller: Seq<char>,
    now: u64,
    deposit: u128,
    r: Result<Receipt, ContractError>,
)
    requires
        before.wf(),
        evolve_outcome(before, after, id, receiver, caller, now, deposit, r),
        before.owner_of(id) == Some(caller),
        before.level_of(id) matches Some(l) && l >= TERMINAL_STAGE,
        before.meta_of(id) matches Some(m) && unlock_time(m) matches Some(t) && t <= now,
    ensures
        r == Err::<Receipt, ContractError>(ContractError::MaxStage),
        after == before,
{
    before.lemma_live(id);
}

/// Adding the same template twice under the same type leaves that type's
/// templates as the first addition left them.
pub proof fn lemma_add_metadata_idempotent(
    c0: Contract,
    c1: Contract,
    c2: Contract,
    caller: Seq<char>,
    label: Seq<char>,
    m: MetadataView,
    r1: Result<(), ContractError>,
    r2: Result<(), ContractError>,
)
    requires
        add_outcome(c0, c1, caller, label, m, r1),
        add_outcome(c1, c2, caller, label, m, r2),
    ensures
        c2.catalog().entries_or_empty(label).len() == c1.catalog().entries_or_empty(label).len(),
        c2.catalog().entries(label) == c1.catalog().entries(label),
{
    if caller == c0.owner_view() {
        let s = c0.catalog().entries_or_empty(label);
        if !s.contains(m) {
            assert(s.push(m)[s.len() as int] == m);
        }
        assert(with_template(s, m).contains(m));
    }
}

/// A mint whose deposit is below the cost fails and changes nothing; the
/// error is the payment error unless the catalog position is unknown.
pub proof fn lemma_mint_underpaid(
    before: Contract,
    after: Contract,
    receiver: Seq<char>,
    species: u64,
    now: u64,
    deposit: u128,
    r: Result<Receipt, ContractError>,
)
    requires
        mint_outcome(before, after, receiver, species, now, deposit, r),
        deposit < MINIMUM_EARLY_DEPOSIT,
    ensures
        r is Err,
        after == before,
        entry_at(before.catalog().entries_or_empty(crate::contract::stage_label(0)), species) is Some
            ==> r == Err::<Receipt, ContractError>(ContractError::Payment),
{
}

/// An evolution whose deposit is below the cost fails and changes nothing;
/// the error is the payment error exactly when the call would pass every
/// other check.
pub proof fn lemma_evolve_underpaid(
    before: Contract,
    after: Contract,
    id: u64,
    receiver: Seq<char>,
    caller: Seq<char>,
    now: u64,
    deposit: u128,
    r: Result<Receipt, ContractError>,
)
    requires
        evolve_outcome(before, after, id, receiver, caller, now, deposit, r),
        deposit < MINIMUM_EARLY_DEPOSIT,
    ensures
        r is Err,
        after == before,
        (r == Err::<Receipt, ContractError>(ContractError::Payment)) == (evolve_error(
            before,
            id,
            receiver,
            caller,
            now,
            MINIMUM_EARLY_DEPOSIT,
        ) is None),
{
}

} // verus!
