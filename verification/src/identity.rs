//! The `did:fer` registry: accredited issuers anchor DID documents (only the
//! document hash, the controller, key references and a revocation
//! commitment), controllers rotate their keys, and issuers publish the
//! revocation accumulator.
use vstd::prelude::*;
use crate::origin::{admits, ensure_origin, signer_of, ensure_signed, Origin, OriginRule};
use crate::primitives::{
    copy_vec, AccountId, BlockNumber, Commitment, Did, DidDocument, DidKeyRef, DidView, Hash32,
    MAX_DID_KEYS,
};
use crate::table::Table;

verus! {

/// Events of the registry.
#[derive(Debug, PartialEq, Eq)]
pub enum Event {
    DidAnchored { did: Did, controller: AccountId, doc_hash: Hash32 },
    KeysRotated { did: Did, key_count: u32 },
    RevocationUpdated { commitment: Commitment },
    IssuerRegistered { who: AccountId },
}

/// Errors of the registry.
#[derive(Clone, Copy, Debug, PartialEq, Eq)]
pub enum Error {
    /// The origin is not allowed to make the call.
    BadOrigin,
    NotAccredited,
    AlreadyExists,
    NotFound,
    NotController,
    WrongChainTag,
}

/// What a DID document denotes.
pub struct DocView {
    pub did: DidView,
    pub controller: AccountId,
    pub doc_hash: Hash32,
    pub keys: Seq<DidKeyRef>,
    pub revocation_commitment: Commitment,
    pub anchored_at: BlockNumber,
}

impl View for DidDocument {
    type V = DocView;

    open spec fn view(&self) -> DocView {
        DocView {
            did: self.did@,
            controller: self.controller,
            doc_hash: self.doc_hash,
            keys: self.keys@,
            revocation_commitment: self.revocation_commitment,
            anchored_at: self.anchored_at,
        }
    }
}

impl DidDocument {
    /// A copy of the document.
    pub fn copy(&self) -> (r: DidDocument)
        ensures
            r@ == self@,
    {
        DidDocument {
            did: self.did.copy(),
            controller: self.controller,
            doc_hash: self.doc_hash,
            keys: copy_vec(self.keys.as_slice()),
            revocation_commitment: self.revocation_commitment,
            anchored_at: self.anchored_at,
        }
    }
}

/// The registry's state.
pub struct Pallet {
    now: BlockNumber,
    local_tag: Vec<u8>,
    issuer_origin: OriginRule,
    governance_origin: OriginRule,
    dids: Table<Did, DidDocument>,
    did_by_controller: Table<AccountId, Did>,
    revocation_accumulator: Commitment,
    accredited_issuers: Table<AccountId, bool>,
    events: Vec<Event>,
}

impl Pallet {
    /// The anchored documents, by DID.
    pub closed spec fn documents(self) -> Map<DidView, DocView> {
        self.dids@.map_values(|d: DidDocument| d@)
    }

    /// The DID each controller anchored last.
    pub closed spec fn controllers(self) -> Map<AccountId, DidView> {
        self.did_by_controller@.map_values(|d: Did| d@)
    }

    /// The accredited-issuer roll.
    pub closed spec fn accredited(self) -> Map<AccountId, bool> {
        self.accredited_issuers@
    }

    /// The revocation accumulator.
    pub closed spec fn accumulator(self) -> Commitment {
        self.revocation_accumulator
    }

    /// The chain tag of locally issued DIDs.
    pub closed spec fn tag(self) -> Seq<u8> {
        self.local_tag@
    }

    /// Who may anchor documents and publish revocations.
    pub closed spec fn issuers(self) -> OriginRule {
        self.issuer_origin
    }

    /// Who may accredit issuers.
    pub closed spec fn governance(self) -> OriginRule {
        self.governance_origin
    }

    /// The current block.
    pub closed spec fn clock(self) -> BlockNumber {
        self.now
    }

    /// The events emitted so far.
    pub closed spec fn log(self) -> Seq<Event> {
        self.events@
    }

    /// An empty registry for the chain tagged `local_tag`.
    pub fn new(local_tag: Vec<u8>, issuer_origin: OriginRule, governance_origin: OriginRule) -> (r: Pallet)
        ensures
            r.documents() == Map::<DidView, DocView>::empty(),
            r.controllers() == Map::<AccountId, DidView>::empty(),
            r.accredited() == Map::<AccountId, bool>::empty(),
            r.tag() == local_tag@,
            r.issuers() == issuer_origin,
            r.governance() == governance_origin,
            r.clock() == 0,
            r.log() == Seq::<Event>::empty(),
    {
        let r = Pallet {
            now: 0,
            local_tag,
            issuer_origin,
            governance_origin,
            dids: Table::new(),
            did_by_controller: Table::new(),
            revocation_accumulator: [0u8; 32],
            accredited_issuers: Table::new(),
            events: Vec::new(),
        };
        assert(r.documents() =~= Map::<DidView, DocView>::empty());
        assert(r.controllers() =~= Map::<AccountId, DidView>::empty());
        r
    }

    /// Move the clock to block `n`.
    pub fn set_block_number(&mut self, n: BlockNumber)
        ensures
            final(self).clock() == n,
            final(self).documents() == old(self).documents(),
            final(self).controllers() == old(self).controllers(),
            final(self).accredited() == old(self).accredited(),
            final(self).accumulator() == old(self).accumulator(),
            final(self).tag() == old(self).tag(),
            final(self).issuers() == old(self).issuers(),
            final(self).governance() == old(self).governance(),
            final(self).log() == old(self).log(),
    {
        self.now = n;
    }

    /// The events emitted so far.
    pub fn events(&self) -> (r: &Vec<Event>)
        ensures
            r@ == self.log(),
    {
        &self.events
    }

    /// Anchor a DID document: issuer origin only, a DID of the local chain,
    /// not anchored before.
    pub fn anchor_did(&mut self, origin: Origin, doc: DidDocument) -> (r: Result<(), Error>)
        ensures
            r is Err ==> r == Err::<(), Error>(Error::AlreadyExists) || r == Err::<(), Error>(Error::BadOrigin) || r == Err::<(), Error>(Error::WrongChainTag),
            final(self).clock() == old(self).clock(),
            final(self).tag() == old(self).tag(),
            final(self).issuers() == old(self).issuers(),
            final(self).governance() == old(self).governance(),
            final(self).accredited() == old(self).accredited(),
            final(self).accumulator() == old(self).accumulator(),
            r is Err ==> *final(self) == *old(self),
            (r == Err::<(), Error>(Error::BadOrigin)) == !admits(old(self).issuers(), origin),
            admits(old(self).issuers(), origin) ==> {
                &&& (r == Err::<(), Error>(Error::WrongChainTag)) == (doc.did.chain_tag@ != old(self).tag())
                &&& (r == Err::<(), Error>(Error::AlreadyExists)) == (doc.did.chain_tag@ == old(self).tag()
                    && old(self).documents().contains_key(doc.did@))
                &&& r is Ok ==> {
                    &&& final(self).documents() == old(self).documents().insert(doc.did@, doc@)
                    &&& final(self).controllers() == old(self).controllers().insert(doc.controller, doc.did@)
                    &&& final(self).log().len() == old(self).log().len() + 1
                    &&& final(self).log().drop_last() == old(self).log()
                    &&& final(self).log().last() matches Event::DidAnchored { did, controller, doc_hash }
                    &&& did@ == doc.did@ && controller == doc.controller && doc_hash == doc.doc_hash
                }
            },
    {
        if !ensure_origin(&self.issuer_origin, &origin) {
            return Err(Error::BadOrigin);
        }
        if !doc.did.is_local(self.local_tag.as_slice()) {
            return Err(Error::WrongChainTag);
        }
        if self.dids.contains_key(&doc.did) {
            proof {
                assert(self.documents().contains_key(doc.did@));
            }
            return Err(Error::AlreadyExists);
        }
        proof {
            assert(!self.documents().contains_key(doc.did@));
        }
        let controller = doc.controller;
        let doc_hash = doc.doc_hash;
        let key = doc.did.copy();
        let by_ctrl = doc.did.copy();
        let ev_did = doc.did.copy();
        let ghost dv = doc@;
        self.dids.insert(key, doc);
        self.did_by_controller.insert(controller, by_ctrl);
        proof {
            assert(self.documents() =~= old(self).documents().insert(dv.did, dv));
            assert(self.controllers() =~= old(self).controllers().insert(controller, dv.did));
        }
        self.events.push(Event::DidAnchored { did: ev_did, controller, doc_hash });
        Ok(())
    }

    /// Replace the key references of a DID; only its controller may, and the
    /// document is stamped with the current block.
    pub fn rotate_keys(&mut self, origin: Origin, did: Did, keys: Vec<DidKeyRef>) -> (r: Result<(), Error>)
        requires
            keys@.len() <= MAX_DID_KEYS,
        ensures
            r is Err ==> r == Err::<(), Error>(Error::BadOrigin) || r == Err::<(), Error>(Error::NotController) || r == Err::<(), Error>(Error::NotFound),
            final(self).clock() == old(self).clock(),
            final(self).tag() == old(self).tag(),
            final(self).controllers() == old(self).controllers(),
            final(self).accredited() == old(self).accredited(),
            final(self).accumulator() == old(self).accumulator(),
            r is Err ==> *final(self) == *old(self),
            (r == Err::<(), Error>(Error::BadOrigin)) == (signer_of(origin) is None),
            signer_of(origin) matches Some(who) ==> {
                &&& (r == Err::<(), Error>(Error::NotFound)) == !old(self).documents().contains_key(did@)
                &&& old(self).documents().contains_key(did@) ==> {
                    let d = old(self).documents()[did@];
                    &&& (r == Err::<(), Error>(Error::NotController)) == (d.controller != who)
                    &&& r is Ok ==> {
                        &&& final(self).documents() == old(self).documents().insert(
                            did@,
                            DocView { did: did@, keys: keys@, anchored_at: old(self).clock(), ..d },
                        )
                        &&& final(self).log().len() == old(self).log().len() + 1
                        &&& final(self).log().drop_last() == old(self).log()
                        &&& final(self).log().last() matches Event::KeysRotated { did: ed, key_count }
                        &&& ed@ == did@ && key_count == keys@.len()
                    }
                }
            },
    {
        let who = match ensure_signed(&origin) {
            Some(a) => a,
            None => return Err(Error::BadOrigin),
        };
        let d = match self.dids.get(&did) {
            Some(d) => d,
            None => return Err(Error::NotFound),
        };
        if !crate::table::bytes_eq(&d.controller, &who) {
            return Err(Error::NotController);
        }
        let key_count = keys.len() as u32;
        let updated = DidDocument {
            did: did.copy(),
            controller: d.controller,
            doc_hash: d.doc_hash,
            keys,
            revocation_commitment: d.revocation_commitment,
            anchored_at: self.now,
        };
        let ghost uv = updated@;
        self.dids.insert(did.copy(), updated);
        proof {
            assert(uv.did == did@);
            assert(self.documents() =~= old(self).documents().insert(did@, uv));
        }
        self.events.push(Event::KeysRotated { did, key_count });
        Ok(())
    }

    /// Publish a new revocation accumulator (issuer origin).
    pub fn update_revocation(&mut self, origin: Origin, commitment: Commitment) -> (r: Result<(), Error>)
        ensures
            r is Err ==> r == Err::<(), Error>(Error::BadOrigin),
            final(self).documents() == old(self).documents(),
            final(self).controllers() == old(self).controllers(),
            final(self).accredited() == old(self).accredited(),
            r is Err ==> *final(self) == *old(self),
            r is Err <==> !admits(old(self).issuers(), origin),
            r is Err ==> r == Err::<(), Error>(Error::BadOrigin),
            r is Ok ==> final(self).accumulator() == commitment && final(self).log() == old(self).log().push(
                Event::RevocationUpdated { commitment },
            ),
    {
        if !ensure_origin(&self.issuer_origin, &origin) {
            return Err(Error::BadOrigin);
        }
        self.revocation_accumulator = commitment;
        self.events.push(Event::RevocationUpdated { commitment });
        Ok(())
    }

    /// Accredit an issuer (governance origin).
    pub fn register_issuer(&mut self, origin: Origin, who: AccountId) -> (r: Result<(), Error>)
        ensures
            r is Err ==> r == Err::<(), Error>(Error::BadOrigin),
            final(self).documents() == old(self).documents(),
            final(self).controllers() == old(self).controllers(),
            final(self).accumulator() == old(self).accumulator(),
            r is Err ==> *final(self) == *old(self),
            r is Err <==> !admits(old(self).governance(), origin),
            r is Err ==> r == Err::<(), Error>(Error::BadOrigin),
            r is Ok ==> final(self).accredited() == old(self).accredited().insert(who, true)
                && final(self).log() == old(self).log().push(Event::IssuerRegistered { who }),
    {
        if !ensure_origin(&self.governance_origin, &origin) {
            return Err(Error::BadOrigin);
        }
        self.accredited_issuers.insert(who, true);
        self.events.push(Event::IssuerRegistered { who });
        Ok(())
    }

    /// Whether an account is an accredited issuer.
    pub fn is_accredited_issuer(&self, who: &AccountId) -> (r: bool)
        ensures
            r == (self.accredited().contains_key(*who) && self.accredited()[*who]),
    {
        match self.accredited_issuers.get(who) {
            Some(b) => *b,
            None => false,
        }
    }

    /// The document anchored for a DID.
    pub fn dids(&self, did: &Did) -> (r: Option<&DidDocument>)
        ensures
            match r {
                Some(d) => self.documents().contains_key(did@) && d@ == self.documents()[did@],
                None => !self.documents().contains_key(did@),
            },
    {
        self.dids.get(did)
    }

    /// The DID a controller anchored last.
    pub fn did_by_controller(&self, who: &AccountId) -> (r: Option<&Did>)
        ensures
            match r {
                Some(d) => self.controllers().contains_key(*who) && d@ == self.controllers()[*who],
                None => !self.controllers().contains_key(*who),
            },
    {
        self.did_by_controller.get(who)
    }

    /// Resolve a DID to a copy of its document.
    pub fn resolve(&self, did: &Did) -> (r: Option<DidDocument>)
        ensures
            match r {
                Some(d) => self.documents().contains_key(did@) && d@ == self.documents()[did@],
                None => !self.documents().contains_key(did@),
            },
    {
        match self.dids.get(did) {
            Some(d) => Some(d.copy()),
            None => None,
        }
    }

    /// Whether a DID has an anchored document.
    pub fn did_exists(&self, did: &Did) -> (r: bool)
        ensures
            r == self.documents().contains_key(did@),
    {
        self.dids.contains_key(did)
    }

    /// The current revocation accumulator.
    pub fn revocation_accumulator(&self) -> (r: Commitment)
        ensures
            r == self.accumulator(),
    {
        self.revocation_accumulator
    }
}

} // verus!
