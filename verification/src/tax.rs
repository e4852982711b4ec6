//! Tax administration: e-invoice anchoring (the hash only, line items stay
//! off-chain), withholding at source, fiat-denominated obligations, the
//! zero-knowledge bracket proof, settlement in eTWD through the treasury,
//! and authorized audit access recorded as viewing-key commitments.
use vstd::prelude::*;
use crate::origin::{admits, ensure_origin, ensure_signed, signer_of, Origin, OriginRule};
use crate::primitives::{
    AccountId, AgeProofPublicInputs, BlockNumber, Commitment, Did, DidView, FiatAmount, Hash32,
    InvoiceAnchor, Nullifier, TaxBracket, TaxKind, TaxObligation,
};
use crate::table::Table;
use crate::hashing::{blake2_256, blake2_256_of};
use crate::scale::{le_bytes, push_le};
use crate::zk::{decode_proof, decode_vk, groth16_proof_decodes, groth16_verdict, groth16_vk_decodes, Fr};
use crate::zk::age_proof::{age_inputs_ok, lemma_age_inputs_unique, public_inputs_from, verify_age_threshold};

verus! {

/// Most brackets in the bracket table.
pub const MAX_BRACKETS: usize = 32;

/// Where obligations are settled in eTWD: the treasury records the receipt.
/// An implementation records each settlement it accepts, and nothing for one
/// it refuses.
/// Its records are spec functions that a verified implementation defines;
/// left undefined, they are unspecified and nothing is known of them.
pub trait TreasurySettle {
    /// The settlements accepted so far: payer, receipt, amount.
    closed spec fn settlements(&self) -> Seq<(AccountId, Hash32, FiatAmount)> {
        arbitrary()
    }

    /// Whether the treasury accepts a settlement in its current state.
    closed spec fn accepts_settlement(&self, payer: AccountId, receipt: Hash32, amount: FiatAmount) -> bool {
        arbitrary()
    }

    /// The error the treasury answers a settlement it refuses with.
    closed spec fn settlement_refusal(&self, payer: AccountId, receipt: Hash32, amount: FiatAmount) -> crate::treasury::Error {
        arbitrary()
    }

    /// Settle a fiat obligation referenced by `receipt`, paid by `payer`.
    fn settle_fiat(&mut self, payer: &AccountId, receipt: Hash32, amount: FiatAmount) -> (r: Result<(), crate::treasury::Error>)
        ensures
            r is Ok <==> old(self).accepts_settlement(*payer, receipt, amount),
            r is Err ==> r == Err::<(), crate::treasury::Error>(old(self).settlement_refusal(*payer, receipt, amount)),
            r is Ok ==> final(self).settlements() == old(self).settlements().push((*payer, receipt, amount)),
            r is Err ==> final(self).settlements() == old(self).settlements(),
    ;
}

/// Events of the tax module.
#[derive(Debug, PartialEq, Eq)]
pub enum Event {
    InvoiceAnchored { invoice_hash: Hash32, issuer: AccountId, kind: TaxKind },
    Withheld { subject: Did, kind: TaxKind, amount: FiatAmount },
    ObligationFiled { subject: Did, slot: u64, amount_due: FiatAmount },
    BracketProven { nullifier: Nullifier },
    Settled { subject: Did, slot: u64, amount: FiatAmount },
    AuditAuthorized { invoice: Hash32, viewing_key_commitment: Commitment },
}

/// Errors of the tax module.
#[derive(Clone, Copy, Debug, PartialEq, Eq)]
pub enum Error {
    /// The origin is not allowed to make the call.
    BadOrigin,
    InvoiceAlreadyAnchored,
    ObligationNotFound,
    AlreadySettled,
    TooManyBrackets,
    MalformedProof,
    InvalidProof,
    InvoiceNotFound,
    /// The treasury refused the settlement.
    Treasury(crate::treasury::Error),
}

/// What an obligation denotes.
pub struct ObligationView {
    pub subject: DidView,
    pub kind: TaxKind,
    pub amount_due: FiatAmount,
    pub detail_commitment: Commitment,
    pub settled: bool,
}

impl View for TaxObligation {
    type V = ObligationView;

    open spec fn view(&self) -> ObligationView {
        ObligationView {
            subject: self.subject@,
            kind: self.kind,
            amount_due: self.amount_due,
            detail_commitment: self.detail_commitment,
            settled: self.settled,
        }
    }
}

/// The receipt a settlement is recorded under: BLAKE2-256 of the
/// obligation's detail commitment and the filing slot (8 bytes
/// little-endian).
pub open spec fn settle_receipt_of(detail_commitment: Commitment, slot: u64) -> Seq<u8> {
    blake2_256_of(detail_commitment@ + le_bytes(slot as int, 8))
}

/// The receipt a settlement is recorded under.
pub fn settle_receipt(detail_commitment: &Commitment, slot: u64) -> (r: Hash32)
    ensures
        r@ == settle_receipt_of(*detail_commitment, slot),
{
    let mut buf: Vec<u8> = Vec::new();
    let mut i: usize = 0;
    while i < 32
        invariant
            i <= 32,
            buf@ == detail_commitment@.subrange(0, i as int),
        decreases 32 - i,
    {
        buf.push(detail_commitment[i]);
        i = i + 1;
        assert(buf@ =~= detail_commitment@.subrange(0, i as int));
    }
    assert(detail_commitment@.subrange(0, 32) =~= detail_commitment@);
    push_le(&mut buf, slot as u128, 8);
    blake2_256(buf.as_slice())
}

/// The tax module's state.
pub struct Pallet {
    auditor: OriginRule,
    governance: OriginRule,
    now: BlockNumber,
    invoices: Table<Hash32, InvoiceAnchor>,
    obligations: Table<(Did, u64), TaxObligation>,
    brackets: Vec<TaxBracket>,
    bracket_vk: Vec<u8>,
    audit_log: Table<Hash32, Commitment>,
    events: Vec<Event>,
}

/// The answer to a bracket proof under verifying key `vk`: the proof must
/// decode, and so must the key (an unset key is the empty byte string, which
/// does not); then the proof must be valid for the public inputs.
pub open spec fn bracket_result(origin: Origin, proof: Seq<u8>, vk: Seq<u8>, inputs: AgeProofPublicInputs) -> Result<(), Error> {
    if !(origin is Signed) {
        Err(Error::BadOrigin)
    } else if !groth16_proof_decodes(proof) {
        Err(Error::MalformedProof)
    } else if !groth16_vk_decodes(vk) {
        Err(Error::MalformedProof)
    } else if exists|s: Seq<Fr>| #[trigger] age_inputs_ok(inputs, s) && groth16_verdict(vk, proof, s) == Some(true) {
        Ok(())
    } else {
        Err(Error::InvalidProof)
    }
}

impl Pallet {
    /// Who may authorize audits.
    pub closed spec fn auditors(self) -> OriginRule {
        self.auditor
    }

    /// Who may set the brackets.
    pub closed spec fn governors(self) -> OriginRule {
        self.governance
    }

    /// The current block.
    pub closed spec fn clock(self) -> BlockNumber {
        self.now
    }

    /// Anchored invoices by hash.
    pub closed spec fn invoice_map(self) -> Map<Hash32, InvoiceAnchor> {
        self.invoices@
    }

    /// Filed obligations by subject and slot.
    pub closed spec fn obligation_map(self) -> Map<(DidView, u64), ObligationView> {
        self.obligations@.map_values(|o: TaxObligation| o@)
    }

    /// The verifying key of the bracket circuit.
    pub closed spec fn bracket_key(self) -> Seq<u8> {
        self.bracket_vk@
    }

    /// The bracket table.
    pub closed spec fn bracket_table(self) -> Seq<TaxBracket> {
        self.brackets@
    }

    /// The audit log: invoice to viewing-key commitment.
    pub closed spec fn audits(self) -> Map<Hash32, Commitment> {
        self.audit_log@
    }

    /// The events emitted so far.
    pub closed spec fn log(self) -> Seq<Event> {
        self.events@
    }

    /// An empty tax module.
    pub fn new(auditor: OriginRule, governance: OriginRule) -> (r: Pallet)
        ensures
            r.auditors() == auditor,
            r.governors() == governance,
            r.clock() == 0,
            r.invoice_map() == Map::<Hash32, InvoiceAnchor>::empty(),
            r.obligation_map() == Map::<(DidView, u64), ObligationView>::empty(),
            r.bracket_table() == Seq::<TaxBracket>::empty(),
            r.bracket_key() == Seq::<u8>::empty(),
            r.audits() == Map::<Hash32, Commitment>::empty(),
            r.log() == Seq::<Event>::empty(),
    {
        let r = Pallet {
            auditor,
            governance,
            now: 0,
            invoices: Table::new(),
            obligations: Table::new(),
            brackets: Vec::new(),
            bracket_vk: Vec::new(),
            audit_log: Table::new(),
            events: Vec::new(),
        };
        assert(r.obligation_map() =~= Map::<(DidView, u64), ObligationView>::empty());
        r
    }

    /// Advance the clock to block `n`.
    pub fn set_block_number(&mut self, n: BlockNumber)
        ensures
            final(self).clock() == n,
            final(self).invoice_map() == old(self).invoice_map(),
            final(self).obligation_map() == old(self).obligation_map(),
            final(self).audits() == old(self).audits(),
            final(self).log() == old(self).log(),
    {
        self.now = n;
    }

    /// Anchor an e-invoice (signed origin): only its hash and metadata; an
    /// invoice is anchored once.
    pub fn anchor_invoice(&mut self, origin: Origin, anchor: InvoiceAnchor) -> (r: Result<(), Error>)
        ensures
            r is Err ==> r == Err::<(), Error>(Error::BadOrigin) || r == Err::<(), Error>(Error::InvoiceAlreadyAnchored),
            r is Err ==> *final(self) == *old(self),
            (r == Err::<(), Error>(Error::BadOrigin)) == !(origin is Signed),
            origin is Signed ==> (r == Err::<(), Error>(Error::InvoiceAlreadyAnchored)) == old(self).invoice_map().contains_key(
                anchor.invoice_hash,
            ),
            r is Ok ==> {
                &&& final(self).invoice_map() == old(self).invoice_map().insert(anchor.invoice_hash, anchor)
                &&& final(self).log() == old(self).log().push(
                    Event::InvoiceAnchored { invoice_hash: anchor.invoice_hash, issuer: anchor.issuer, kind: anchor.kind },
                )
                &&& final(self).obligation_map() == old(self).obligation_map()
                &&& final(self).audits() == old(self).audits()
            },
    {
        match ensure_signed(&origin) {
            Some(_) => {},
            None => return Err(Error::BadOrigin),
        }
        if self.invoices.contains_key(&anchor.invoice_hash) {
            return Err(Error::InvoiceAlreadyAnchored);
        }
        self.invoices.insert(anchor.invoice_hash, anchor);
        self.events.push(Event::InvoiceAnchored { invoice_hash: anchor.invoice_hash, issuer: anchor.issuer, kind: anchor.kind });
        Ok(())
    }

    /// Record a withholding at source for `subject` (signed origin).
    pub fn withhold(&mut self, origin: Origin, subject: Did, kind: TaxKind, amount: FiatAmount) -> (r: Result<(), Error>)
        ensures
            r is Err ==> r == Err::<(), Error>(Error::BadOrigin),
            r is Err ==> *final(self) == *old(self),
            (r == Err::<(), Error>(Error::BadOrigin)) == !(origin is Signed),
            r is Ok ==> {
                &&& final(self).log().len() == old(self).log().len() + 1
                &&& final(self).log().drop_last() == old(self).log()
                &&& final(self).log().last() matches Event::Withheld { subject: s, kind: k, amount: a }
                &&& s@ == subject@ && k == kind && a == amount
                &&& final(self).invoice_map() == old(self).invoice_map()
                &&& final(self).obligation_map() == old(self).obligation_map()
                &&& final(self).audits() == old(self).audits()
            },
    {
        match ensure_signed(&origin) {
            Some(_) => {},
            None => return Err(Error::BadOrigin),
        }
        self.events.push(Event::Withheld { subject, kind, amount });
        assert(self.log().drop_last() =~= old(self).log());
        Ok(())
    }

    /// File an obligation (signed origin) under the current block as its
    /// slot; a filing in the same slot replaces the earlier one.
    pub fn file_obligation(&mut self, origin: Origin, obligation: TaxObligation) -> (r: Result<(), Error>)
        ensures
            r is Err ==> r == Err::<(), Error>(Error::BadOrigin),
            r is Err ==> *final(self) == *old(self),
            (r == Err::<(), Error>(Error::BadOrigin)) == !(origin is Signed),
            r is Ok ==> {
                let slot = old(self).clock() as u64;
                &&& final(self).obligation_map() == old(self).obligation_map().insert((obligation.subject@, slot), obligation@)
                &&& final(self).log().len() == old(self).log().len() + 1
                &&& final(self).log().drop_last() == old(self).log()
                &&& final(self).log().last() matches Event::ObligationFiled { subject: s, slot: n, amount_due: a }
                &&& s@ == obligation.subject@ && n == slot && a == obligation.amount_due
                &&& final(self).invoice_map() == old(self).invoice_map()
                &&& final(self).audits() == old(self).audits()
                &&& final(self).clock() == old(self).clock()
            },
    {
        match ensure_signed(&origin) {
            Some(_) => {},
            None => return Err(Error::BadOrigin),
        }
        let subject = obligation.subject.copy();
        let key_subject = obligation.subject.copy();
        let amount_due = obligation.amount_due;
        let slot = self.now as u64;
        let ghost ov = obligation@;
        self.obligations.insert((key_subject, slot), obligation);
        assert(self.obligation_map() =~= old(self).obligation_map().insert((subject@, slot), ov));
        self.events.push(Event::ObligationFiled { subject, slot, amount_due });
        assert(self.log().drop_last() =~= old(self).log());
        Ok(())
    }

    /// Set the verifying key of the bracket circuit (governance origin).
    pub fn set_bracket_vk(&mut self, origin: Origin, vk: Vec<u8>) -> (r: Result<(), Error>)
        ensures
            r is Err <==> !admits(old(self).governors(), origin),
            r is Err ==> r == Err::<(), Error>(Error::BadOrigin) && *final(self) == *old(self),
            r is Ok ==> {
                &&& final(self).bracket_key() == vk@
                &&& final(self).log() == old(self).log()
                &&& final(self).invoice_map() == old(self).invoice_map()
                &&& final(self).obligation_map() == old(self).obligation_map()
                &&& final(self).audits() == old(self).audits()
                &&& final(self).bracket_table() == old(self).bracket_table()
            },
    {
        if !ensure_origin(&self.governance, &origin) {
            return Err(Error::BadOrigin);
        }
        self.bracket_vk = vk;
        Ok(())
    }

    /// Submit a zero-knowledge bracket proof (signed origin) over the
    /// age-threshold circuit's public inputs, under the governed verifying
    /// key (empty until governance sets it); the answer is
    /// [`bracket_result`].
    pub fn prove_bracket(&mut self, origin: Origin, proof: Vec<u8>, inputs: AgeProofPublicInputs) -> (r: Result<(), Error>)
        ensures
            r == bracket_result(origin, proof@, old(self).bracket_key(), inputs),
            r is Err ==> *final(self) == *old(self),
            r is Ok ==> {
                &&& final(self).log() == old(self).log().push(Event::BracketProven { nullifier: inputs.nullifier })
                &&& final(self).invoice_map() == old(self).invoice_map()
                &&& final(self).obligation_map() == old(self).obligation_map()
                &&& final(self).audits() == old(self).audits()
            },
    {
        match ensure_signed(&origin) {
            Some(_) => {},
            None => return Err(Error::BadOrigin),
        }
        let decoded = match decode_proof(proof.as_slice()) {
            Ok(p) => p,
            Err(_) => return Err(Error::MalformedProof),
        };
        let vk = match decode_vk(self.bracket_vk.as_slice()) {
            Ok(k) => k,
            Err(_) => return Err(Error::MalformedProof),
        };
        let xs = public_inputs_from(&inputs);
        let verdict = verify_age_threshold(&decoded, &vk, xs.as_slice());
        let ok = match verdict {
            Ok(b) => b,
            Err(_) => false,
        };
        proof {
            if !ok {
                assert forall|s: Seq<Fr>| #[trigger] age_inputs_ok(inputs, s) implies groth16_verdict(
                    self.bracket_vk@,
                    proof@,
                    s,
                ) != Some(true) by {
                    lemma_age_inputs_unique(inputs, s, xs@);
                }
            }
        }
        if !ok {
            return Err(Error::InvalidProof);
        }
        self.events.push(Event::BracketProven { nullifier: inputs.nullifier });
        Ok(())
    }

    /// Settle the obligation of `subject` at `slot` in eTWD (signed origin,
    /// the payer): the treasury records the obligation's detail commitment
    /// as the receipt; only a settlement it accepts marks the obligation
    /// settled.
    pub fn settle<S: TreasurySettle>(&mut self, origin: Origin, subject: Did, slot: u64, treasury: &mut S) -> (r: Result<(), Error>)
        ensures
            r is Err ==> *final(self) == *old(self),
            (r == Err::<(), Error>(Error::BadOrigin)) == !(origin is Signed),
            !(origin is Signed) ==> *final(treasury) == *old(treasury),
            origin is Signed ==> {
                let m = old(self).obligation_map();
                let k = (subject@, slot);
                &&& (r == Err::<(), Error>(Error::ObligationNotFound)) == !m.contains_key(k)
                &&& (r == Err::<(), Error>(Error::AlreadySettled)) == (m.contains_key(k) && m[k].settled)
                &&& !(m.contains_key(k) && !m[k].settled) ==> *final(treasury) == *old(treasury)
                &&& m.contains_key(k) && !m[k].settled ==> exists|receipt: Hash32| {
                    &&& #[trigger] receipt@ == settle_receipt_of(m[k].detail_commitment, slot)
                    &&& r is Ok ==> final(treasury).settlements() == old(treasury).settlements().push(
                        (signer_of(origin)->0, receipt, m[k].amount_due),
                    )
                    &&& (r is Ok <==> old(treasury).accepts_settlement(signer_of(origin)->0, receipt, m[k].amount_due))
                    &&& r is Err ==> r == Err::<(), Error>(Error::Treasury(
                        old(treasury).settlement_refusal(signer_of(origin)->0, receipt, m[k].amount_due),
                    ))
                }
                &&& r is Err ==> final(treasury).settlements() == old(treasury).settlements()
                &&& m.contains_key(k) && !m[k].settled ==> (r is Ok || r matches Err(Error::Treasury(_)))
                &&& r is Ok ==> {
                    &&& final(self).obligation_map() == m.insert(k, ObligationView { settled: true, ..m[k] })
                    &&& final(self).log().len() == old(self).log().len() + 1
                    &&& final(self).log().drop_last() == old(self).log()
                    &&& final(self).log().last() matches Event::Settled { subject: s, slot: n, amount: a }
                    &&& s@ == subject@ && n == slot && a == m[k].amount_due
                    &&& final(self).invoice_map() == old(self).invoice_map()
                    &&& final(self).audits() == old(self).audits()
                }
            },
    {
        let who = match ensure_signed(&origin) {
            Some(a) => a,
            None => return Err(Error::BadOrigin),
        };
        let key = (subject.copy(), slot);
        let mut updated = match self.obligations.get(&key) {
            Some(o) => {
                if o.settled {
                    return Err(Error::AlreadySettled);
                }
                TaxObligation {
                    subject: o.subject.copy(),
                    kind: o.kind,
                    amount_due: o.amount_due,
                    detail_commitment: o.detail_commitment,
                    settled: o.settled,
                }
            },
            None => return Err(Error::ObligationNotFound),
        };
        let receipt = settle_receipt(&updated.detail_commitment, slot);
        let amount = updated.amount_due;
        match treasury.settle_fiat(&who, receipt, amount) {
            Ok(()) => {},
            Err(e) => return Err(Error::Treasury(e)),
        }
        let ghost m = self.obligation_map();
        updated.settled = true;
        let ghost uv = updated@;
        self.obligations.insert(key, updated);
        assert(self.obligation_map() =~= m.insert((subject@, slot), uv));
        self.events.push(Event::Settled { subject, slot, amount });
        assert(self.log().drop_last() =~= old(self).log());
        Ok(())
    }

    /// Authorize audit access to an anchored invoice (auditor origin),
    /// recording the viewing-key commitment.
    pub fn authorize_audit(&mut self, origin: Origin, invoice: Hash32, viewing_key_commitment: Commitment) -> (r: Result<(), Error>)
        ensures
            r is Err ==> r == Err::<(), Error>(Error::BadOrigin) || r == Err::<(), Error>(Error::InvoiceNotFound),
            r is Err ==> *final(self) == *old(self),
            (r == Err::<(), Error>(Error::BadOrigin)) == !admits(old(self).auditors(), origin),
            admits(old(self).auditors(), origin) ==> (r == Err::<(), Error>(Error::InvoiceNotFound)) == !old(self).invoice_map().contains_key(invoice),
            r is Ok ==> {
                &&& final(self).audits() == old(self).audits().insert(invoice, viewing_key_commitment)
                &&& final(self).log() == old(self).log().push(Event::AuditAuthorized { invoice, viewing_key_commitment })
                &&& final(self).invoice_map() == old(self).invoice_map()
                &&& final(self).obligation_map() == old(self).obligation_map()
            },
    {
        if !ensure_origin(&self.auditor, &origin) {
            return Err(Error::BadOrigin);
        }
        if !self.invoices.contains_key(&invoice) {
            return Err(Error::InvoiceNotFound);
        }
        self.audit_log.insert(invoice, viewing_key_commitment);
        self.events.push(Event::AuditAuthorized { invoice, viewing_key_commitment });
        Ok(())
    }

    /// Replace the bracket table (governance origin); at most 32 brackets.
    pub fn set_brackets(&mut self, origin: Origin, brackets: Vec<TaxBracket>) -> (r: Result<(), Error>)
        requires
            brackets@.len() <= MAX_BRACKETS,
        ensures
            r is Err ==> r == Err::<(), Error>(Error::BadOrigin),
            r is Err ==> *final(self) == *old(self),
            (r == Err::<(), Error>(Error::BadOrigin)) == !admits(old(self).governors(), origin),
            r is Ok ==> {
                &&& final(self).bracket_table() == brackets@
                &&& final(self).log() == old(self).log()
                &&& final(self).invoice_map() == old(self).invoice_map()
                &&& final(self).obligation_map() == old(self).obligation_map()
                &&& final(self).audits() == old(self).audits()
            },
    {
        if !ensure_origin(&self.governance, &origin) {
            return Err(Error::BadOrigin);
        }
        self.brackets = brackets;
        Ok(())
    }

    /// An anchored invoice.
    pub fn invoice(&self, invoice_hash: &Hash32) -> (r: Option<InvoiceAnchor>)
        ensures
            match r {
                Some(a) => self.invoice_map().contains_key(*invoice_hash) && a == self.invoice_map()[*invoice_hash],
                None => !self.invoice_map().contains_key(*invoice_hash),
            },
    {
        match self.invoices.get(invoice_hash) {
            Some(a) => Some(*a),
            None => None,
        }
    }

    /// A filed obligation.
    pub fn obligation(&self, subject: &Did, slot: u64) -> (r: Option<TaxObligation>)
        ensures
            match r {
                Some(o) => self.obligation_map().contains_key((subject@, slot)) && o@ == self.obligation_map()[(subject@, slot)],
                None => !self.obligation_map().contains_key((subject@, slot)),
            },
    {
        match self.obligations.get(&(subject.copy(), slot)) {
            Some(o) => Some(TaxObligation {
                subject: o.subject.copy(),
                kind: o.kind,
                amount_due: o.amount_due,
                detail_commitment: o.detail_commitment,
                settled: o.settled,
            }),
            None => None,
        }
    }

    /// The viewing-key commitment recorded for an invoice's audit.
    pub fn audit_entry(&self, invoice: &Hash32) -> (r: Option<Commitment>)
        ensures
            match r {
                Some(c) => self.audits().contains_key(*invoice) && c == self.audits()[*invoice],
                None => !self.audits().contains_key(*invoice),
            },
    {
        match self.audit_log.get(invoice) {
            Some(c) => Some(*c),
            None => None,
        }
    }

    /// The number of brackets in the table.
    pub fn bracket_count(&self) -> (r: usize)
        ensures
            r == self.bracket_table().len(),
    {
        self.brackets.len()
    }

    /// The events emitted so far.
    pub fn events(&self) -> (r: &Vec<Event>)
        ensures
            r@ == self.log(),
    {
        &self.events
    }
}

} // verus!
