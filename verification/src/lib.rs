//! A minimal registry that mints, transfers, prices, and sells
//! uniquely-identified digital assets ("kitties") on behalf of account
//! holders.
//!
//! The [`Pallet`] owns the ledger state: a registry of kitties keyed by their
//! 32-byte dna, a global counter, and a per-account bounded ownership index.
//! Every operation either commits all of its writes or returns an error and
//! leaves the state exactly as it was. Balance movement during a purchase is
//! delegated to the host through the [`Config`] trait; the host's
//! all-or-nothing execution boundary is responsible for discarding the payment
//! when the ownership transfer after it fails.

use vstd::prelude::*;

pub mod dna;
pub mod impls;
pub mod ledger;
pub mod model;

use crate::dna::blake2_256_of;
use crate::dna::dna_preimage;
use crate::model::all_owned_bounded;
use crate::model::all_owned_distinct;
use crate::model::kitty_lookup;
use crate::model::owned_in_registry;
use crate::model::owned_lookup;
use crate::model::registry_in_owned;
use crate::model::unique_accounts;
use crate::model::unique_dnas;

verus! {

/// An account is named by an opaque 64-bit identifier supplied by the host.
pub type AccountId = u64;

/// Balances are unsigned 64-bit amounts; the balance ledger itself lives with
/// the host.
pub type Balance = u64;

/// Capacity bound of one account's ownership collection.
pub const MAX_KITTIES_OWNED: usize = 100;

/// A uniquely identified asset: its 32-byte dna (the registry key), its
/// current owner, and its sale price (`None` when not listed for sale).
#[derive(Clone, Copy, Debug, PartialEq, Eq)]
pub struct Kitty {
    pub dna: [u8; 32],
    pub owner: AccountId,
    pub price: Option<Balance>,
}

/// One account's slot of the ownership index.
pub struct OwnedEntry {
    pub account: AccountId,
    pub kitty_ids: Vec<[u8; 32]>,
}

/// Notifications recorded after every successful operation, in order.
#[derive(Clone, Copy, Debug, PartialEq, Eq)]
pub enum Event {
    Created { owner: AccountId },
    Transferred { from: AccountId, to: AccountId, kitty_id: [u8; 32] },
    PriceSet { owner: AccountId, kitty_id: [u8; 32], new_price: Option<Balance> },
    Sold { buyer: AccountId, kitty_id: [u8; 32], price: Balance },
}

/// Everything that can go wrong inside the ledger itself.
#[derive(Clone, Copy, Debug, PartialEq, Eq, Structural)]
pub enum Error {
    /// The global counter would overflow.
    TooManyKitties,
    /// A kitty with this dna already exists.
    DuplicateKitty,
    /// The receiving account already owns `MAX_KITTIES_OWNED` kitties.
    TooManyOwned,
    /// A transfer names the same account as sender and receiver.
    TransferToSelf,
    /// No kitty with this dna exists.
    NoKitty,
    /// The calling account does not own the kitty.
    NotOwner,
    /// The kitty is not listed for sale.
    NotForSale,
    /// The buyer's maximum price is below the listed price.
    MaxPriceTooLow,
}

/// Failures of the host's balance-transfer primitive, propagated verbatim.
#[derive(Clone, Copy, Debug, PartialEq, Eq, Structural)]
pub enum PaymentError {
    InsufficientFunds,
    Other,
}

/// What a purchase can report: a ledger error of this pallet, or a failure of
/// the host's balance-transfer primitive.
#[derive(Clone, Copy, Debug, PartialEq, Eq, Structural)]
pub enum DispatchError {
    Module(Error),
    Payment(PaymentError),
}

/// The host environment of the pallet. The one capability it must supply is
/// the balance-transfer primitive used during a purchase.
///
/// This is an open contract on a collaborator: no type in this crate
/// implements it, so what the purchase contracts state about balances is
/// trusted of whatever ledger the host supplies. The clauses below say no
/// more than any honest ledger does: a completed transfer moves exactly
/// `amount` and nothing else, a transfer to oneself or a failed one moves
/// nothing, and whether a transfer completes (funds, existence rules) is the
/// ledger's own decision.
pub trait Config {
    /// The ledger's balances, each account's holding as a mathematical
    /// integer.
    spec fn balances(&self) -> Map<AccountId, int>;

    /// Move exactly `amount` from `from` to `to`. When `preserve` is true the
    /// payer's account record must survive even if its balance reaches zero.
    /// The pallet never retries or translates the outcome; on a later failure
    /// the host's execution boundary discards the completed payment.
    fn transfer(
        &mut self,
        from: AccountId,
        to: AccountId,
        amount: Balance,
        preserve: bool,
    ) -> (r: Result<(), PaymentError>)
        ensures
            r is Ok && from != to ==> final(self).balances() == old(self).balances().insert(
                from,
                old(self).balances()[from] - amount,
            ).insert(to, old(self).balances()[to] + amount),
            r is Ok && from == to ==> final(self).balances() == old(self).balances(),
            r is Err ==> final(self).balances() == old(self).balances(),
    ;
}

/// The ledger and marketplace engine: the registry of kitties, the global
/// counter, the per-account ownership index, and the notifications recorded so
/// far. Mutate it only through its operations; they keep [`Pallet::wf`].
pub struct Pallet {
    pub kitties: Vec<Kitty>,
    pub count_for_kitties: u32,
    pub kitties_owned: Vec<OwnedEntry>,
    pub events: Vec<Event>,
}

impl Pallet {
    /// The registry: the kitty stored under the id bytes `id`, if any.
    pub open spec fn spec_kitty(self, id: Seq<u8>) -> Option<Kitty> {
        kitty_lookup(self.kitties@, id)
    }

    /// Whether some kitty is stored under the id bytes `id`.
    pub open spec fn has_kitty(self, id: Seq<u8>) -> bool {
        self.spec_kitty(id) is Some
    }

    /// The ownership index: the ids account `a` currently owns. Order within
    /// the collection is not semantically meaningful.
    pub open spec fn owned(self, a: AccountId) -> Seq<[u8; 32]> {
        owned_lookup(self.kitties_owned@, a)
    }

    /// Well-formedness: the invariants that hold after every completed
    /// operation.
    pub open spec fn wf(self) -> bool {
        &&& unique_dnas(self.kitties@)
        &&& self.count_for_kitties as int == self.kitties@.len()
        &&& unique_accounts(self.kitties_owned@)
        &&& all_owned_bounded(self.kitties_owned@)
        &&& all_owned_distinct(self.kitties_owned@)
        &&& owned_in_registry(self.kitties@, self.kitties_owned@)
        &&& registry_in_owned(self.kitties@, self.kitties_owned@)
    }

    /// An empty ledger: no kitties, no owners, no notifications.
    pub fn new() -> (p: Pallet)
        ensures
            p.wf(),
            p.kitties@.len() == 0,
            p.count_for_kitties == 0,
            p.kitties_owned@.len() == 0,
            p.events@.len() == 0,
    {
        Pallet {
            kitties: Vec::new(),
            count_for_kitties: 0,
            kitties_owned: Vec::new(),
            events: Vec::new(),
        }
    }

    /// Public entry: mint a fresh kitty for the authenticated caller `who`,
    /// deriving its dna from the host context and the current count. The dna
    /// is still checked against the registry: a hash collision fails with
    /// `DuplicateKitty` and changes nothing.
    pub fn create_kitty(&mut self, who: AccountId, ctx: &BlockContext) -> (r: Result<(), Error>)
        requires
            old(self).wf(),
        ensures
            final(self).wf(),
            ({
                let dna = blake2_256_of(
                    dna_preimage(
                        ctx.parent_hash@,
                        ctx.block_number,
                        ctx.extrinsic_index,
                        old(self).count_for_kitties,
                    ),
                );
                match r {
                    Ok(()) => {
                        &&& !old(self).has_kitty(dna)
                        &&& old(self).count_for_kitties < u32::MAX
                        &&& old(self).owned(who).len() < 100
                        &&& (final(self).spec_kitty(dna) matches Some(k) && k.dna@ == dna
                            && k.owner == who && k.price is None)
                        &&& forall|id: Seq<u8>|
                            id != dna ==> final(self).spec_kitty(id) == old(self).spec_kitty(id)
                        &&& final(self).count_for_kitties == old(self).count_for_kitties + 1
                        &&& final(self).owned(who).len() == old(self).owned(who).len() + 1
                        &&& final(self).owned(who).drop_last() == old(self).owned(who)
                        &&& final(self).owned(who).last()@ == dna
                        &&& forall|a: AccountId|
                            a != who ==> final(self).owned(a) == old(self).owned(a)
                        &&& final(self).events@ == old(self).events@.push(
                            Event::Created { owner: who },
                        )
                    },
                    Err(e) => {
                        &&& *final(self) == *old(self)
                        &&& (e == Error::DuplicateKitty <==> old(self).has_kitty(dna))
                        &&& (e == Error::TooManyKitties <==> !old(self).has_kitty(dna) && old(
                            self,
                        ).count_for_kitties == u32::MAX)
                        &&& (e == Error::TooManyOwned <==> !old(self).has_kitty(dna) && old(
                            self,
                        ).count_for_kitties < u32::MAX && old(self).owned(who).len() >= 100)
                        &&& (e == Error::DuplicateKitty || e == Error::TooManyKitties || e
                            == Error::TooManyOwned)
                    },
                }
            }),
    {
        let dna = self.gen_dna(ctx);
        let r = self.mint(who, dna);
        proof {
            if r is Ok {
                assert(self.owned(who).drop_last() =~= old(self).owned(who));
            }
        }
        r
    }

    /// Public entry: transfer `kitty_id` from the authenticated caller `who`
    /// to `to`.
    pub fn transfer(&mut self, who: AccountId, to: AccountId, kitty_id: [u8; 32]) -> (r: Result<
        (),
        Error,
    >)
        requires
            old(self).wf(),
        ensures
            final(self).wf(),
            Pallet::transfer_post(*old(self), *final(self), who, to, kitty_id, r),
    {
        self.do_transfer(who, to, kitty_id)
    }

    /// Public entry: list or delist `kitty_id`, by its authenticated owner
    /// `who`.
    pub fn set_price(
        &mut self,
        who: AccountId,
        kitty_id: [u8; 32],
        new_price: Option<Balance>,
    ) -> (r: Result<(), Error>)
        requires
            old(self).wf(),
        ensures
            final(self).wf(),
            Pallet::set_price_post(*old(self), *final(self), who, kitty_id, new_price, r),
    {
        self.do_set_price(who, kitty_id, new_price)
    }

    /// Public entry: buy `kitty_id` for the authenticated caller `who`, paying
    /// at most `max_price` through the host's balance primitive.
    pub fn buy_kitty<T: Config>(
        &mut self,
        ledger: &mut T,
        who: AccountId,
        kitty_id: [u8; 32],
        max_price: Balance,
    ) -> (r: Result<(), DispatchError>)
        requires
            old(self).wf(),
        ensures
            final(self).wf(),
            Pallet::buy_post(*old(self), *final(self), who, kitty_id, max_price, r),
            Pallet::buy_ledger_post(
                *old(self),
                old(ledger).balances(),
                final(ledger).balances(),
                who,
                kitty_id,
                r,
            ),
            (r matches Err(e2) && (e2 == DispatchError::Module(Error::NoKitty) || e2
                == DispatchError::Module(Error::NotForSale) || e2 == DispatchError::Module(
                Error::MaxPriceTooLow,
            ))) ==> *final(ledger) == *old(ledger),
    {
        self.do_buy_kitty(ledger, who, kitty_id, max_price)
    }

    /// The kitty stored under `kitty_id`, if any.
    pub fn get_kitty(&self, kitty_id: &[u8; 32]) -> (r: Option<Kitty>)
        requires
            self.wf(),
        ensures
            r == self.spec_kitty(kitty_id@),
    {
        match self.find_kitty_index(kitty_id) {
            Some(i) => Some(self.kitties[i]),
            None => None,
        }
    }

    /// The global number of kitties minted so far.
    pub fn count(&self) -> (r: u32)
        ensures
            r == self.count_for_kitties,
    {
        self.count_for_kitties
    }

    /// The ids `account` currently owns. Their order carries no meaning.
    pub fn owned_ids(&self, account: AccountId) -> (r: Vec<[u8; 32]>)
        requires
            self.wf(),
        ensures
            r@ == self.owned(account),
    {
        match self.find_owner_index(account) {
            None => {
                let r: Vec<[u8; 32]> = Vec::new();
                proof {
                    assert(r@ =~= self.owned(account));
                }
                r
            },
            Some(i) => {
                let mut out: Vec<[u8; 32]> = Vec::new();
                let mut j: usize = 0;
                while j < self.kitties_owned[i].kitty_ids.len()
                    invariant
                        i < self.kitties_owned@.len(),
                        j <= self.kitties_owned@[i as int].kitty_ids@.len(),
                        out@ == self.kitties_owned@[i as int].kitty_ids@.take(j as int),
                    decreases self.kitties_owned@[i as int].kitty_ids@.len() - j,
                {
                    out.push(self.kitties_owned[i].kitty_ids[j]);
                    proof {
                        assert(out@ =~= self.kitties_owned@[i as int].kitty_ids@.take(j + 1));
                    }
                    j = j + 1;
                }
                proof {
                    assert(out@ =~= self.kitties_owned@[i as int].kitty_ids@);
                }
                out
            },
        }
    }
}

/// Law: in a well-formed ledger no account's inventory exceeds 100 entries;
/// since every operation returns a well-formed ledger and a failed one changes
/// nothing, a 101st entry can never appear.
pub proof fn lemma_owned_bounded(p: Pallet, a: AccountId)
    requires
        p.wf(),
    ensures
        p.owned(a).len() <= 100,
{
}

/// Law: after a completed mint, looking the dna up yields the freshly minted
/// kitty — owned by the given account and not for sale — and the global count
/// is exactly one higher.
pub proof fn lemma_create_then_get(pre: Pallet, post: Pallet, owner: AccountId, dna: [u8; 32])
    requires
        Pallet::mint_post(pre, post, owner, dna, Ok(())),
    ensures
        post.spec_kitty(dna@) == Some((Kitty { dna, owner, price: None })),
        post.count_for_kitties == pre.count_for_kitties + 1,
{
}

/// The environmental context the host supplies for dna derivation: a
/// previous-state fingerprint, a position marker within the host's history,
/// and a sub-position marker within that position.
pub struct BlockContext {
    pub parent_hash: [u8; 32],
    pub block_number: u64,
    pub extrinsic_index: Option<u32>,
}

} // verus!
