//! The marketplace engine: dna generation, minting, transfer, pricing, and
//! purchase, each an all-or-nothing mutation of the [`Pallet`] state.

use vstd::prelude::*;

use crate::dna::blake2_256;
use crate::dna::blake2_256_of;
use crate::dna::dna_preimage;
use crate::dna::push_u32_le;
use crate::dna::push_u64_le;
use crate::model::id_count;
use crate::model::lemma_id_count_zero;
use crate::model::lemma_kitty_lookup_found;
use crate::model::lemma_kitty_lookup_none;
use crate::model::lemma_mint_wf;
use crate::model::lemma_owned_lookup_absent;
use crate::model::lemma_owned_lookup_found;
use crate::model::lemma_owned_lookup_push;
use crate::model::lemma_owned_lookup_update;
use crate::model::lemma_replace_same_owner_wf;
use crate::model::lemma_transfer_wf;
use crate::model::owned_lookup;
use crate::model::unique_accounts;
use crate::model::unique_dnas;
use crate::AccountId;
use crate::Balance;
use crate::BlockContext;
use crate::Config;
use crate::DispatchError;
use crate::Error;
use crate::Event;
use crate::Kitty;
use crate::OwnedEntry;
use crate::Pallet;
use crate::MAX_KITTIES_OWNED;

verus! {

/// Whether two 32-byte identifiers hold the same bytes.
pub(crate) fn id_eq(a: &[u8; 32], b: &[u8; 32]) -> (r: bool)
    ensures
        r == (a@ == b@),
{
    let mut i: usize = 0;
    while i < 32
        invariant
            i <= 32,
            forall|j: int| 0 <= j < i ==> a@[j] == b@[j],
        decreases 32 - i,
    {
        if a[i] != b[i] {
            return false;
        }
        i = i + 1;
    }
    proof {
        assert(a@ =~= b@);
    }
    true
}

/// The position of `kitty_id` within one account's collection, if present.
fn find_id_position(ids: &Vec<[u8; 32]>, kitty_id: &[u8; 32]) -> (r: Option<usize>)
    ensures
        match r {
            Some(p) => p < ids@.len() && ids@[p as int]@ == kitty_id@,
            None => forall|q: int| 0 <= q < ids@.len() ==> (#[trigger] ids@[q])@ != kitty_id@,
        },
{
    let mut i: usize = 0;
    while i < ids.len()
        invariant
            i <= ids@.len(),
            forall|q: int| 0 <= q < i ==> (#[trigger] ids@[q])@ != kitty_id@,
        decreases ids@.len() - i,
    {
        if id_eq(&ids[i], kitty_id) {
            return Some(i);
        }
        i = i + 1;
    }
    None
}

impl Pallet {
    /// The registry slot of `kitty_id`, if one exists.
    pub(crate) fn find_kitty_index(&self, kitty_id: &[u8; 32]) -> (r: Option<usize>)
        requires
            unique_dnas(self.kitties@),
        ensures
            match r {
                Some(i) => i < self.kitties@.len() && self.kitties@[i as int].dna@ == kitty_id@
                    && self.spec_kitty(kitty_id@) == Some(self.kitties@[i as int]),
                None => self.spec_kitty(kitty_id@) is None && forall|j: int|
                    0 <= j < self.kitties@.len() ==> (#[trigger] self.kitties@[j]).dna@
                        != kitty_id@,
            },
    {
        let mut i: usize = 0;
        while i < self.kitties.len()
            invariant
                unique_dnas(self.kitties@),
                i <= self.kitties@.len(),
                forall|j: int| 0 <= j < i ==> (#[trigger] self.kitties@[j]).dna@ != kitty_id@,
            decreases self.kitties@.len() - i,
        {
            if id_eq(&self.kitties[i].dna, kitty_id) {
                proof {
                    lemma_kitty_lookup_found(self.kitties@, kitty_id@, i as int);
                }
                return Some(i);
            }
            i = i + 1;
        }
        proof {
            lemma_kitty_lookup_none(self.kitties@, kitty_id@);
        }
        None
    }

    /// The ownership-index slot of `account`, if one exists.
    pub(crate) fn find_owner_index(&self, account: AccountId) -> (r: Option<usize>)
        requires
            unique_accounts(self.kitties_owned@),
        ensures
            match r {
                Some(i) => i < self.kitties_owned@.len() && self.kitties_owned@[i as int].account
                    == account && self.owned(account) == self.kitties_owned@[i as int].kitty_ids@,
                None => self.owned(account) == Seq::<[u8; 32]>::empty() && forall|j: int|
                    0 <= j < self.kitties_owned@.len() ==> (#[trigger] self.kitties_owned@[
                        j
                    ]).account != account,
            },
    {
        let mut i: usize = 0;
        while i < self.kitties_owned.len()
            invariant
                unique_accounts(self.kitties_owned@),
                i <= self.kitties_owned@.len(),
                forall|j: int|
                    0 <= j < i ==> (#[trigger] self.kitties_owned@[j]).account != account,
            decreases self.kitties_owned@.len() - i,
        {
            if self.kitties_owned[i].account == account {
                proof {
                    lemma_owned_lookup_found(self.kitties_owned@, account, i as int);
                }
                return Some(i);
            }
            i = i + 1;
        }
        proof {
            lemma_owned_lookup_absent(self.kitties_owned@, account);
        }
        None
    }

    /// Derive a fresh dna from the host context and the current global count:
    /// the Blake2b-256 digest of their concatenation.
    pub fn gen_dna(&self, ctx: &BlockContext) -> (dna: [u8; 32])
        ensures
            dna@ == blake2_256_of(
                dna_preimage(
                    ctx.parent_hash@,
                    ctx.block_number,
                    ctx.extrinsic_index,
                    self.count_for_kitties,
                ),
            ),
    {
        let mut payload: Vec<u8> = Vec::new();
        let mut i: usize = 0;
        while i < 32
            invariant
                i <= 32,
                payload@ == ctx.parent_hash@.take(i as int),
            decreases 32 - i,
        {
            payload.push(ctx.parent_hash[i]);
            proof {
                assert(payload@ =~= ctx.parent_hash@.take(i + 1));
            }
            i = i + 1;
        }
        proof {
            assert(payload@ =~= ctx.parent_hash@);
        }
        push_u64_le(&mut payload, ctx.block_number);
        match ctx.extrinsic_index {
            None => payload.push(0u8),
            Some(v) => {
                payload.push(1u8);
                push_u32_le(&mut payload, v);
            },
        }
        push_u32_le(&mut payload, self.count_for_kitties);
        proof {
            assert(payload@ =~= dna_preimage(
                ctx.parent_hash@,
                ctx.block_number,
                ctx.extrinsic_index,
                self.count_for_kitties,
            ));
        }
        blake2_256(&payload)
    }

    /// What a completed mint did — or, on an error, why it did nothing.
    pub open spec fn mint_post(
        pre: Pallet,
        post: Pallet,
        owner: AccountId,
        dna: [u8; 32],
        r: Result<(), Error>,
    ) -> bool {
        match r {
            Ok(()) => {
                &&& !pre.has_kitty(dna@)
                &&& pre.count_for_kitties < u32::MAX
                &&& pre.owned(owner).len() < 100
                &&& post.spec_kitty(dna@) == Some(Kitty { dna, owner, price: None })
                &&& forall|id: Seq<u8>| id != dna@ ==> post.spec_kitty(id) == pre.spec_kitty(id)
                &&& post.count_for_kitties == pre.count_for_kitties + 1
                &&& post.owned(owner) == pre.owned(owner).push(dna)
                &&& forall|a: AccountId| a != owner ==> post.owned(a) == pre.owned(a)
                &&& post.events@ == pre.events@.push(Event::Created { owner })
            },
            Err(e) => {
                &&& post == pre
                &&& (e == Error::DuplicateKitty <==> pre.has_kitty(dna@))
                &&& (e == Error::TooManyKitties <==> !pre.has_kitty(dna@) && pre.count_for_kitties
                    == u32::MAX)
                &&& (e == Error::TooManyOwned <==> !pre.has_kitty(dna@) && pre.count_for_kitties
                    < u32::MAX && pre.owned(owner).len() >= 100)
                &&& (e == Error::DuplicateKitty || e == Error::TooManyKitties || e
                    == Error::TooManyOwned)
            },
        }
    }

    /// Mint a kitty with the given dna for `owner`: record it in the registry,
    /// append it to the owner's collection, raise the global count, and note a
    /// `Created` event — or fail with no visible effect.
    pub fn mint(&mut self, owner: AccountId, dna: [u8; 32]) -> (r: Result<(), Error>)
        requires
            old(self).wf(),
        ensures
            final(self).wf(),
            Pallet::mint_post(*old(self), *final(self), owner, dna, r),
    {
        if self.find_kitty_index(&dna).is_some() {
            return Err(Error::DuplicateKitty);
        }
        if self.count_for_kitties == u32::MAX {
            return Err(Error::TooManyKitties);
        }
        let new_count = self.count_for_kitties + 1;
        let kitty = Kitty { dna, owner, price: None };
        match self.find_owner_index(owner) {
            Some(i) => {
                if self.kitties_owned[i].kitty_ids.len() >= MAX_KITTIES_OWNED {
                    return Err(Error::TooManyOwned);
                }
                self.kitties_owned[i].kitty_ids.push(dna);
                proof {
                    let os = old(self).kitties_owned@;
                    let e2 = self.kitties_owned@[i as int];
                    assert(self.kitties_owned@ =~= os.update(i as int, e2));
                    assert forall|b: AccountId|
                        #[trigger] owned_lookup(self.kitties_owned@, b) == (if b == owner {
                            owned_lookup(os, owner).push(dna)
                        } else {
                            owned_lookup(os, b)
                        }) by {
                        lemma_owned_lookup_update(os, i as int, e2, b);
                    }
                    assert forall|p: int|
                        0 <= p < self.kitties_owned@.len() implies (#[trigger] self.kitties_owned@[
                        p
                    ]).account == os[p].account by {}
                    assert(unique_accounts(self.kitties_owned@));
                }
            },
            None => {
                let mut ids: Vec<[u8; 32]> = Vec::new();
                ids.push(dna);
                self.kitties_owned.push(OwnedEntry { account: owner, kitty_ids: ids });
                proof {
                    let os = old(self).kitties_owned@;
                    let e2 = self.kitties_owned@.last();
                    assert(self.kitties_owned@ =~= os.push(e2));
                    assert forall|b: AccountId|
                        #[trigger] owned_lookup(self.kitties_owned@, b) == (if b == owner {
                            owned_lookup(os, owner).push(dna)
                        } else {
                            owned_lookup(os, b)
                        }) by {
                        lemma_owned_lookup_push(os, e2, b);
                        if b == owner {
                            assert(owned_lookup(os, owner) =~= Seq::<[u8; 32]>::empty());
                            assert(e2.kitty_ids@ =~= owned_lookup(os, owner).push(dna));
                        }
                    }
                    assert forall|p: int, q: int|
                        0 <= p < q < self.kitties_owned@.len() implies self.kitties_owned@[
                        p
                    ].account != self.kitties_owned@[q].account by {
                        if q == os.len() {
                            assert(self.kitties_owned@[p] == os[p]);
                        }
                    }
                    assert(unique_accounts(self.kitties_owned@));
                }
            },
        }
        self.kitties.push(kitty);
        self.count_for_kitties = new_count;
        self.events.push(Event::Created { owner });
        proof {
            lemma_mint_wf(
                old(self).kitties@,
                old(self).kitties_owned@,
                self.kitties_owned@,
                owner,
                dna,
            );
        }
        Ok(())
    }

    /// What a completed transfer did — or, on an error, why it did nothing.
    pub open spec fn transfer_post(
        pre: Pallet,
        post: Pallet,
        from: AccountId,
        to: AccountId,
        kitty_id: [u8; 32],
        r: Result<(), Error>,
    ) -> bool {
        match r {
            Ok(()) => {
                &&& from != to
                &&& (pre.spec_kitty(kitty_id@) matches Some(k) && k.owner == from)
                &&& pre.owned(to).len() < 100
                &&& (post.spec_kitty(kitty_id@) matches Some(k2) && k2.dna@ == kitty_id@
                    && k2.owner == to && k2.price is None)
                &&& forall|id: Seq<u8>|
                    id != kitty_id@ ==> post.spec_kitty(id) == pre.spec_kitty(id)
                &&& post.count_for_kitties == pre.count_for_kitties
                &&& post.owned(to) == pre.owned(to).push(kitty_id)
                &&& id_count(post.owned(to), kitty_id@) == 1
                &&& id_count(post.owned(from), kitty_id@) == 0
                &&& post.owned(from).len() == pre.owned(from).len() - 1
                &&& forall|id: Seq<u8>|
                    id != kitty_id@ ==> id_count(post.owned(from), id) == id_count(
                        pre.owned(from),
                        id,
                    )
                &&& forall|a: AccountId| a != from && a != to ==> post.owned(a) == pre.owned(a)
                &&& post.events@ == pre.events@.push(Event::Transferred { from, to, kitty_id })
            },
            Err(e) => {
                &&& post == pre
                &&& (e == Error::TransferToSelf <==> from == to)
                &&& (e == Error::NoKitty <==> from != to && !pre.has_kitty(kitty_id@))
                &&& (e == Error::NotOwner <==> from != to && (pre.spec_kitty(kitty_id@)
                    matches Some(k) && k.owner != from))
                &&& (e == Error::TooManyOwned <==> from != to && (pre.spec_kitty(kitty_id@)
                    matches Some(k) && k.owner == from) && pre.owned(to).len() >= 100)
                &&& (e == Error::TransferToSelf || e == Error::NoKitty || e == Error::NotOwner || e
                    == Error::TooManyOwned)
            },
        }
    }

    /// Move the kitty named `kitty_id` from `from` to `to`: re-own it, clear
    /// its price, append it to `to`'s collection, compact-remove it from
    /// `from`'s, and note a `Transferred` event — or fail with no visible
    /// effect. Compact-removal may reorder `from`'s remaining ids.
    pub fn do_transfer(&mut self, from: AccountId, to: AccountId, kitty_id: [u8; 32]) -> (r:
        Result<(), Error>)
        requires
            old(self).wf(),
        ensures
            final(self).wf(),
            Pallet::transfer_post(*old(self), *final(self), from, to, kitty_id, r),
    {
        if from == to {
            return Err(Error::TransferToSelf);
        }
        let ki = match self.find_kitty_index(&kitty_id) {
            None => {
                return Err(Error::NoKitty);
            },
            Some(ki) => ki,
        };
        let k = self.kitties[ki];
        if k.owner != from {
            return Err(Error::NotOwner);
        }
        // All checks precede all writes: the receiving collection must have room.
        let to_idx = self.find_owner_index(to);
        if let Some(ti) = to_idx {
            if self.kitties_owned[ti].kitty_ids.len() >= MAX_KITTIES_OWNED {
                return Err(Error::TooManyOwned);
            }
        }
        // Under well-formedness the sender's slot and the id's position in it
        // exist; the failure arms below are unreachable.
        let fi = match self.find_owner_index(from) {
            None => {
                proof {
                    assert(id_count(
                        owned_lookup(self.kitties_owned@, self.kitties@[ki as int].owner),
                        self.kitties@[ki as int].dna@,
                    ) >= 1);
                    assert(false);
                }
                return Err(Error::NoKitty);
            },
            Some(fi) => fi,
        };
        let p = match find_id_position(&self.kitties_owned[fi].kitty_ids, &kitty_id) {
            None => {
                proof {
                    assert(id_count(
                        owned_lookup(self.kitties_owned@, self.kitties@[ki as int].owner),
                        self.kitties@[ki as int].dna@,
                    ) >= 1);
                    lemma_id_count_zero(self.owned(from), kitty_id@);
                    assert(false);
                }
                return Err(Error::NoKitty);
            },
            Some(p) => p,
        };
        self.kitties[ki] = Kitty { dna: k.dna, owner: to, price: None };
        let ghost os0 = old(self).kitties_owned@;
        match to_idx {
            Some(ti) => {
                self.kitties_owned[ti].kitty_ids.push(kitty_id);
                proof {
                    let e2 = self.kitties_owned@[ti as int];
                    assert(self.kitties_owned@ =~= os0.update(ti as int, e2));
                    assert forall|b: AccountId|
                        #[trigger] owned_lookup(self.kitties_owned@, b) == (if b == to {
                            owned_lookup(os0, to).push(kitty_id)
                        } else {
                            owned_lookup(os0, b)
                        }) by {
                        lemma_owned_lookup_update(os0, ti as int, e2, b);
                    }
                    assert forall|q: int|
                        0 <= q < self.kitties_owned@.len() implies (#[trigger] self.kitties_owned@[
                        q
                    ]).account == os0[q].account by {}
                    assert(unique_accounts(self.kitties_owned@));
                }
            },
            None => {
                let mut ids: Vec<[u8; 32]> = Vec::new();
                ids.push(kitty_id);
                self.kitties_owned.push(OwnedEntry { account: to, kitty_ids: ids });
                proof {
                    let e2 = self.kitties_owned@.last();
                    assert(self.kitties_owned@ =~= os0.push(e2));
                    assert forall|b: AccountId|
                        #[trigger] owned_lookup(self.kitties_owned@, b) == (if b == to {
                            owned_lookup(os0, to).push(kitty_id)
                        } else {
                            owned_lookup(os0, b)
                        }) by {
                        lemma_owned_lookup_push(os0, e2, b);
                        if b == to {
                            assert(owned_lookup(os0, to) =~= Seq::<[u8; 32]>::empty());
                            assert(e2.kitty_ids@ =~= owned_lookup(os0, to).push(kitty_id));
                        }
                    }
                    assert forall|x: int, y: int|
                        0 <= x < y < self.kitties_owned@.len() implies self.kitties_owned@[
                        x
                    ].account != self.kitties_owned@[y].account by {
                        if y == os0.len() {
                            assert(self.kitties_owned@[x] == os0[x]);
                        }
                    }
                    assert(unique_accounts(self.kitties_owned@));
                }
            },
        }
        let ghost os1 = self.kitties_owned@;
        proof {
            assert(os1[fi as int] == os0[fi as int]);
            assert(owned_lookup(os1, from) == owned_lookup(os0, from));
        }
        self.kitties_owned[fi].kitty_ids.swap_remove(p);
        proof {
            let e3 = self.kitties_owned@[fi as int];
            assert(self.kitties_owned@ =~= os1.update(fi as int, e3));
            assert(e3.account == from);
            assert(e3.kitty_ids@ == os0[fi as int].kitty_ids@.update(
                p as int,
                os0[fi as int].kitty_ids@.last(),
            ).drop_last());
            assert forall|b: AccountId|
                #[trigger] owned_lookup(self.kitties_owned@, b) == (if b == to {
                    owned_lookup(os0, to).push(kitty_id)
                } else if b == from {
                    owned_lookup(os0, from).update(
                        p as int,
                        owned_lookup(os0, from).last(),
                    ).drop_last()
                } else {
                    owned_lookup(os0, b)
                }) by {
                lemma_owned_lookup_update(os1, fi as int, e3, b);
            }
            assert forall|q: int|
                0 <= q < self.kitties_owned@.len() implies (#[trigger] self.kitties_owned@[
                q
            ]).account == os1[q].account by {}
            assert(unique_accounts(self.kitties_owned@));
        }
        self.events.push(Event::Transferred { from, to, kitty_id });
        proof {
            lemma_transfer_wf(
                old(self).kitties@,
                self.kitties@,
                os0,
                self.kitties_owned@,
                from,
                to,
                kitty_id,
                ki as int,
                p as int,
            );
        }
        Ok(())
    }

    /// What a completed price change did — or, on an error, why it did nothing.
    pub open spec fn set_price_post(
        pre: Pallet,
        post: Pallet,
        caller: AccountId,
        kitty_id: [u8; 32],
        new_price: Option<Balance>,
        r: Result<(), Error>,
    ) -> bool {
        match r {
            Ok(()) => {
                &&& (pre.spec_kitty(kitty_id@) matches Some(k) && k.owner == caller
                    && post.spec_kitty(kitty_id@) == Some(
                    Kitty { dna: k.dna, owner: caller, price: new_price },
                ))
                &&& forall|id: Seq<u8>|
                    id != kitty_id@ ==> post.spec_kitty(id) == pre.spec_kitty(id)
                &&& post.kitties_owned@ == pre.kitties_owned@
                &&& post.count_for_kitties == pre.count_for_kitties
                &&& post.events@ == pre.events@.push(
                    Event::PriceSet { owner: caller, kitty_id, new_price },
                )
            },
            Err(e) => {
                &&& post == pre
                &&& (e == Error::NoKitty <==> !pre.has_kitty(kitty_id@))
                &&& (e == Error::NotOwner <==> (pre.spec_kitty(kitty_id@) matches Some(k)
                    && k.owner != caller))
                &&& (e == Error::NoKitty || e == Error::NotOwner)
            },
        }
    }

    /// List the kitty named `kitty_id` at `new_price` (`None` delists it) and
    /// note a `PriceSet` event — or fail with no visible effect. Only the
    /// current owner may do so.
    pub fn do_set_price(
        &mut self,
        caller: AccountId,
        kitty_id: [u8; 32],
        new_price: Option<Balance>,
    ) -> (r: Result<(), Error>)
        requires
            old(self).wf(),
        ensures
            final(self).wf(),
            Pallet::set_price_post(*old(self), *final(self), caller, kitty_id, new_price, r),
    {
        let ki = match self.find_kitty_index(&kitty_id) {
            None => {
                return Err(Error::NoKitty);
            },
            Some(ki) => ki,
        };
        let k = self.kitties[ki];
        if k.owner != caller {
            return Err(Error::NotOwner);
        }
        self.kitties[ki] = Kitty { dna: k.dna, owner: caller, price: new_price };
        self.events.push(Event::PriceSet { owner: caller, kitty_id, new_price });
        proof {
            lemma_replace_same_owner_wf(
                old(self).kitties@,
                self.kitties@,
                self.kitties_owned@,
                ki as int,
                self.kitties@[ki as int],
            );
        }
        Ok(())
    }

    /// What a completed purchase did — or, on an error, why it did nothing to
    /// this ledger. A payment failure is propagated verbatim; an ownership
    /// error after payment asks the host to discard the payment.
    pub open spec fn buy_post(
        pre: Pallet,
        post: Pallet,
        buyer: AccountId,
        kitty_id: [u8; 32],
        max_price: Balance,
        r: Result<(), DispatchError>,
    ) -> bool {
        match r {
            Ok(()) => (pre.spec_kitty(kitty_id@) matches Some(k) && k.price matches Some(p) && {
                &&& max_price >= p
                &&& k.owner != buyer
                &&& pre.owned(buyer).len() < 100
                &&& (post.spec_kitty(kitty_id@) matches Some(k2) && k2.dna@ == kitty_id@
                    && k2.owner == buyer && k2.price is None)
                &&& forall|id: Seq<u8>|
                    id != kitty_id@ ==> post.spec_kitty(id) == pre.spec_kitty(id)
                &&& post.count_for_kitties == pre.count_for_kitties
                &&& post.owned(buyer) == pre.owned(buyer).push(kitty_id)
                &&& id_count(post.owned(buyer), kitty_id@) == 1
                &&& id_count(post.owned(k.owner), kitty_id@) == 0
                &&& forall|a: AccountId|
                    a != k.owner && a != buyer ==> post.owned(a) == pre.owned(a)
                &&& post.events@ == pre.events@.push(
                    Event::Transferred { from: k.owner, to: buyer, kitty_id },
                ).push(Event::Sold { buyer, kitty_id, price: p })
            }),
            Err(e) => {
                &&& post == pre
                &&& (e == DispatchError::Module(Error::NoKitty) <==> !pre.has_kitty(kitty_id@))
                &&& (e == DispatchError::Module(Error::NotForSale) <==> (pre.spec_kitty(kitty_id@)
                    matches Some(k) && k.price is None))
                &&& (e == DispatchError::Module(Error::MaxPriceTooLow) <==> (pre.spec_kitty(
                    kitty_id@,
                ) matches Some(k) && k.price matches Some(p) && max_price < p))
                &&& (e matches DispatchError::Payment(_) ==> (pre.spec_kitty(kitty_id@)
                    matches Some(k) && k.price matches Some(p) && max_price >= p))
                &&& (e == DispatchError::Module(Error::TransferToSelf) ==> (pre.spec_kitty(
                    kitty_id@,
                ) matches Some(k) && k.price is Some && k.owner == buyer))
                &&& (e == DispatchError::Module(Error::TooManyOwned) ==> (pre.spec_kitty(kitty_id@)
                    matches Some(k) && k.price is Some && k.owner != buyer && pre.owned(
                    buyer,
                ).len() >= 100))
                &&& (e == DispatchError::Module(Error::NoKitty) || e == DispatchError::Module(
                    Error::NotForSale,
                ) || e == DispatchError::Module(Error::MaxPriceTooLow) || e
                    == DispatchError::Module(Error::TransferToSelf) || e == DispatchError::Module(
                    Error::TooManyOwned,
                ) || e matches DispatchError::Payment(_))
            },
        }
    }

    /// What a purchase did to the host's balances, for every outcome: a
    /// completed sale moved exactly the listed price from the buyer to the
    /// seller; a purchase refused before payment, a failed payment, and a
    /// self-purchase moved nothing; and when the inventory cap struck after
    /// payment, exactly the payment stands — the part the host's
    /// all-or-nothing boundary must discard.
    pub open spec fn buy_ledger_post(
        pre: Pallet,
        led_pre: Map<AccountId, int>,
        led_post: Map<AccountId, int>,
        buyer: AccountId,
        kitty_id: [u8; 32],
        r: Result<(), DispatchError>,
    ) -> bool {
        match r {
            Ok(()) => (pre.spec_kitty(kitty_id@) matches Some(k) && k.price matches Some(p)
                && led_post == led_pre.insert(buyer, led_pre[buyer] - p).insert(
                k.owner,
                led_pre[k.owner] + p,
            )),
            Err(e) => {
                &&& (e != DispatchError::Module(Error::TooManyOwned) ==> led_post == led_pre)
                &&& (e == DispatchError::Module(Error::TooManyOwned) ==> (pre.spec_kitty(kitty_id@)
                    matches Some(k) && k.price matches Some(p) && led_post == led_pre.insert(
                    buyer,
                    led_pre[buyer] - p,
                ).insert(k.owner, led_pre[k.owner] + p)))
            },
        }
    }

    /// Buy the kitty named `kitty_id` for `buyer`: after the sale checks, pay
    /// the listed price to the seller through the host's balance primitive,
    /// move ownership, and note `Transferred` then `Sold` events — or fail
    /// with no visible effect on this ledger. When the ownership move fails
    /// after payment, the host's all-or-nothing boundary must discard the
    /// payment; this ledger itself is left unchanged.
    pub fn do_buy_kitty<T: Config>(
        &mut self,
        ledger: &mut T,
        buyer: AccountId,
        kitty_id: [u8; 32],
        max_price: Balance,
    ) -> (r: Result<(), DispatchError>)
        requires
            old(self).wf(),
        ensures
            final(self).wf(),
            Pallet::buy_post(*old(self), *final(self), buyer, kitty_id, max_price, r),
            Pallet::buy_ledger_post(
                *old(self),
                old(ledger).balances(),
                final(ledger).balances(),
                buyer,
                kitty_id,
                r,
            ),
            // The three sale checks precede the payment: when one fails, the
            // host's balance state was never touched.
            (r matches Err(e2) && (e2 == DispatchError::Module(Error::NoKitty) || e2
                == DispatchError::Module(Error::NotForSale) || e2 == DispatchError::Module(
                Error::MaxPriceTooLow,
            ))) ==> *final(ledger) == *old(ledger),
    {
        let ki = match self.find_kitty_index(&kitty_id) {
            None => {
                return Err(DispatchError::Module(Error::NoKitty));
            },
            Some(ki) => ki,
        };
        let k = self.kitties[ki];
        let real_price = match k.price {
            None => {
                return Err(DispatchError::Module(Error::NotForSale));
            },
            Some(p) => p,
        };
        if max_price < real_price {
            return Err(DispatchError::Module(Error::MaxPriceTooLow));
        }
        // Pay exactly the listed price, keeping the payer's record alive.
        match ledger.transfer(buyer, k.owner, real_price, true) {
            Err(pe) => {
                return Err(DispatchError::Payment(pe));
            },
            Ok(()) => {},
        }
        // Move ownership; a failure here asks the host to discard the payment.
        match self.do_transfer(k.owner, buyer, kitty_id) {
            Err(e) => {
                return Err(DispatchError::Module(e));
            },
            Ok(()) => {},
        }
        self.events.push(Event::Sold { buyer, kitty_id, price: real_price });
        Ok(())
    }
}

} // verus!
