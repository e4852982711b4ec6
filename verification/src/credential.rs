//! Verifiable-credential anchors: issuers anchor the hash of each signed
//! credential with its subject, kind and status, revoke or re-status it, and
//! verifiers log presentations by one-time nullifier so that none is replayed.
use vstd::prelude::*;
use crate::origin::{admits, ensure_origin, Origin, OriginRule};
use crate::primitives::{
    copy_vec, AccountId, Commitment, CredentialAnchor, CredentialKind, CredentialStatus, Did, DidView, Hash32,
    Moment, Nullifier,
};
use crate::table::Table;

verus! {

/// Most credentials anchored per subject.
pub const MAX_CREDENTIALS_PER_SUBJECT: u32 = 64;

/// Events of the credential registry.
#[derive(Debug, PartialEq, Eq)]
pub enum Event {
    CredentialIssued { subject: Did, issuer: AccountId, payload_hash: Hash32 },
    CredentialRevoked { payload_hash: Hash32 },
    CredentialStatusUpdated { payload_hash: Hash32, status: CredentialStatus },
    PresentationLogged { nullifier: Nullifier, commitment: Commitment },
}

/// Errors of the credential registry.
#[derive(Clone, Copy, Debug, PartialEq, Eq)]
pub enum Error {
    /// The origin is not allowed to make the call.
    BadOrigin,
    CredentialAlreadyExists,
    CredentialNotFound,
    TooManyCredentialsForSubject,
    PresentationAlreadyLogged,
}

/// What an anchor denotes.
pub struct AnchorView {
    pub subject: DidView,
    pub issuer: AccountId,
    pub kind: CredentialKind,
    pub payload_hash: Hash32,
    pub status: CredentialStatus,
    pub expires_at: Option<Moment>,
}

impl View for CredentialAnchor {
    type V = AnchorView;

    open spec fn view(&self) -> AnchorView {
        AnchorView {
            subject: self.subject@,
            issuer: self.issuer,
            kind: self.kind,
            payload_hash: self.payload_hash,
            status: self.status,
            expires_at: self.expires_at,
        }
    }
}

/// The registry's state.
pub struct Pallet {
    issuer_origin: OriginRule,
    credentials: Table<Hash32, CredentialAnchor>,
    by_subject: Table<Did, Vec<Hash32>>,
    presentations: Table<Nullifier, Commitment>,
    events: Vec<Event>,
}

/// The credential hashes anchored for a subject, none when absent.
pub open spec fn hashes_of(m: Map<DidView, Seq<Hash32>>, s: DidView) -> Seq<Hash32> {
    if m.contains_key(s) {
        m[s]
    } else {
        Seq::empty()
    }
}

impl Pallet {
    /// Anchored credentials by payload hash.
    pub closed spec fn anchors(self) -> Map<Hash32, AnchorView> {
        self.credentials@.map_values(|a: CredentialAnchor| a@)
    }

    /// Payload hashes per subject, in issue order.
    pub closed spec fn subjects(self) -> Map<DidView, Seq<Hash32>> {
        self.by_subject@.map_values(|v: Vec<Hash32>| v@)
    }

    /// Logged presentations: nullifier to commitment.
    pub closed spec fn logged(self) -> Map<Nullifier, Commitment> {
        self.presentations@
    }

    /// Who may issue, revoke and re-status.
    pub closed spec fn issuers(self) -> OriginRule {
        self.issuer_origin
    }

    /// The events emitted so far.
    pub closed spec fn log(self) -> Seq<Event> {
        self.events@
    }

    /// An empty registry.
    pub fn new(issuer_origin: OriginRule) -> (r: Pallet)
        ensures
            r.anchors() == Map::<Hash32, AnchorView>::empty(),
            r.subjects() == Map::<DidView, Seq<Hash32>>::empty(),
            r.logged() == Map::<Nullifier, Commitment>::empty(),
            r.issuers() == issuer_origin,
            r.log() == Seq::<Event>::empty(),
    {
        let r = Pallet {
            issuer_origin,
            credentials: Table::new(),
            by_subject: Table::new(),
            presentations: Table::new(),
            events: Vec::new(),
        };
        assert(r.anchors() =~= Map::<Hash32, AnchorView>::empty());
        assert(r.subjects() =~= Map::<DidView, Seq<Hash32>>::empty());
        r
    }

    /// The events emitted so far.
    pub fn events(&self) -> (r: &Vec<Event>)
        ensures
            r@ == self.log(),
    {
        &self.events
    }

    /// Anchor a credential (issuer origin): its payload hash must be new and
    /// its subject must hold fewer than the cap.
    pub fn issue(&mut self, origin: Origin, anchor: CredentialAnchor) -> (r: Result<(), Error>)
        ensures
            r is Err ==> r == Err::<(), Error>(Error::BadOrigin) || r == Err::<(), Error>(Error::CredentialAlreadyExists) || r == Err::<(), Error>(Error::TooManyCredentialsForSubject),
            r is Err ==> *final(self) == *old(self),
            final(self).logged() == old(self).logged(),
            (r == Err::<(), Error>(Error::BadOrigin)) == !admits(old(self).issuers(), origin),
            admits(old(self).issuers(), origin) ==> {
                let held = hashes_of(old(self).subjects(), anchor.subject@);
                &&& (r == Err::<(), Error>(Error::CredentialAlreadyExists)) == old(self).anchors().contains_key(
                    anchor.payload_hash,
                )
                &&& (r == Err::<(), Error>(Error::TooManyCredentialsForSubject)) == (!old(self).anchors().contains_key(
                    anchor.payload_hash,
                ) && held.len() >= MAX_CREDENTIALS_PER_SUBJECT)
                &&& r is Ok ==> {
                    &&& final(self).anchors() == old(self).anchors().insert(anchor.payload_hash, anchor@)
                    &&& final(self).subjects() == old(self).subjects().insert(
                        anchor.subject@,
                        held.push(anchor.payload_hash),
                    )
                    &&& final(self).log().len() == old(self).log().len() + 1
                    &&& final(self).log().drop_last() == old(self).log()
                    &&& final(self).log().last() matches Event::CredentialIssued { subject, issuer, payload_hash }
                    &&& subject@ == anchor.subject@ && issuer == anchor.issuer && payload_hash == anchor.payload_hash
                }
            },
    {
        if !ensure_origin(&self.issuer_origin, &origin) {
            return Err(Error::BadOrigin);
        }
        if self.credentials.contains_key(&anchor.payload_hash) {
            return Err(Error::CredentialAlreadyExists);
        }
        let held: Vec<Hash32> = match self.by_subject.get(&anchor.subject) {
            Some(v) => copy_vec(v.as_slice()),
            None => Vec::new(),
        };
        proof {
            assert(held@ == hashes_of(self.subjects(), anchor.subject@));
        }
        if held.len() >= MAX_CREDENTIALS_PER_SUBJECT as usize {
            return Err(Error::TooManyCredentialsForSubject);
        }
        let mut held = held;
        let payload_hash = anchor.payload_hash;
        let issuer = anchor.issuer;
        held.push(payload_hash);
        let ghost hv = held@;
        self.by_subject.insert(anchor.subject.copy(), held);
        let subject = anchor.subject.copy();
        let ghost av = anchor@;
        self.credentials.insert(payload_hash, anchor);
        proof {
            assert(self.anchors() =~= old(self).anchors().insert(payload_hash, av));
            assert(self.subjects() =~= old(self).subjects().insert(av.subject, hv));
        }
        self.events.push(Event::CredentialIssued { subject, issuer, payload_hash });
        Ok(())
    }

    /// Set the status of an anchored credential (issuer origin).
    fn update_status(&mut self, payload_hash: Hash32, status: CredentialStatus) -> (r: Result<(), Error>)
        ensures
            r is Err ==> *final(self) == *old(self),
            r is Err <==> !old(self).anchors().contains_key(payload_hash),
            r is Err ==> r == Err::<(), Error>(Error::CredentialNotFound),
            r is Ok ==> final(self).anchors() == old(self).anchors().insert(
                payload_hash,
                AnchorView { status, ..old(self).anchors()[payload_hash] },
            ),
            final(self).subjects() == old(self).subjects(),
            final(self).logged() == old(self).logged(),
            final(self).issuers() == old(self).issuers(),
            final(self).log() == old(self).log(),
    {
        let a = match self.credentials.get(&payload_hash) {
            Some(a) => a,
            None => return Err(Error::CredentialNotFound),
        };
        let updated = CredentialAnchor {
            subject: a.subject.copy(),
            issuer: a.issuer,
            kind: a.kind,
            payload_hash: a.payload_hash,
            status,
            expires_at: a.expires_at,
        };
        let ghost uv = updated@;
        self.credentials.insert(payload_hash, updated);
        proof {
            assert(self.anchors() =~= old(self).anchors().insert(payload_hash, uv));
        }
        Ok(())
    }

    /// Revoke an anchored credential (issuer origin).
    pub fn revoke(&mut self, origin: Origin, payload_hash: Hash32) -> (r: Result<(), Error>)
        ensures
            r is Err ==> r == Err::<(), Error>(Error::BadOrigin) || r == Err::<(), Error>(Error::CredentialNotFound),
            r is Err ==> *final(self) == *old(self),
            final(self).subjects() == old(self).subjects(),
            final(self).logged() == old(self).logged(),
            (r == Err::<(), Error>(Error::BadOrigin)) == !admits(old(self).issuers(), origin),
            admits(old(self).issuers(), origin) ==> {
                &&& (r == Err::<(), Error>(Error::CredentialNotFound)) == !old(self).anchors().contains_key(payload_hash)
                &&& r is Ok ==> final(self).anchors() == old(self).anchors().insert(
                    payload_hash,
                    AnchorView { status: CredentialStatus::Revoked, ..old(self).anchors()[payload_hash] },
                ) && final(self).log() == old(self).log().push(Event::CredentialRevoked { payload_hash })
            },
    {
        if !ensure_origin(&self.issuer_origin, &origin) {
            return Err(Error::BadOrigin);
        }
        match self.update_status(payload_hash, CredentialStatus::Revoked) {
            Ok(()) => {},
            Err(e) => return Err(e),
        }
        self.events.push(Event::CredentialRevoked { payload_hash });
        Ok(())
    }

    /// Set the status of an anchored credential (issuer origin).
    pub fn set_status(&mut self, origin: Origin, payload_hash: Hash32, status: CredentialStatus) -> (r: Result<(), Error>)
        ensures
            r is Err ==> r == Err::<(), Error>(Error::BadOrigin) || r == Err::<(), Error>(Error::CredentialNotFound),
            r is Err ==> *final(self) == *old(self),
            final(self).subjects() == old(self).subjects(),
            final(self).logged() == old(self).logged(),
            (r == Err::<(), Error>(Error::BadOrigin)) == !admits(old(self).issuers(), origin),
            admits(old(self).issuers(), origin) ==> {
                &&& (r == Err::<(), Error>(Error::CredentialNotFound)) == !old(self).anchors().contains_key(payload_hash)
                &&& r is Ok ==> final(self).anchors() == old(self).anchors().insert(
                    payload_hash,
                    AnchorView { status, ..old(self).anchors()[payload_hash] },
                ) && final(self).log() == old(self).log().push(
                    Event::CredentialStatusUpdated { payload_hash, status },
                )
            },
    {
        if !ensure_origin(&self.issuer_origin, &origin) {
            return Err(Error::BadOrigin);
        }
        match self.update_status(payload_hash, status) {
            Ok(()) => {},
            Err(e) => return Err(e),
        }
        self.events.push(Event::CredentialStatusUpdated { payload_hash, status });
        Ok(())
    }

    /// Log a presentation by its nullifier (any signed origin); a nullifier
    /// is logged at most once, so a presentation cannot be replayed.
    pub fn log_presentation(&mut self, origin: Origin, nullifier: Nullifier, commitment: Commitment) -> (r: Result<(), Error>)
        ensures
            r is Err ==> r == Err::<(), Error>(Error::BadOrigin) || r == Err::<(), Error>(Error::PresentationAlreadyLogged),
            r is Err ==> *final(self) == *old(self),
            final(self).anchors() == old(self).anchors(),
            final(self).subjects() == old(self).subjects(),
            (r == Err::<(), Error>(Error::BadOrigin)) == !(origin is Signed),
            origin is Signed ==> {
                &&& (r == Err::<(), Error>(Error::PresentationAlreadyLogged)) == old(self).logged().contains_key(nullifier)
                &&& r is Ok ==> final(self).logged() == old(self).logged().insert(nullifier, commitment)
                    && final(self).log() == old(self).log().push(Event::PresentationLogged { nullifier, commitment })
            },
    {
        match origin {
            Origin::Signed(_) => {},
            _ => return Err(Error::BadOrigin),
        }
        if self.presentations.contains_key(&nullifier) {
            return Err(Error::PresentationAlreadyLogged);
        }
        self.presentations.insert(nullifier, commitment);
        self.events.push(Event::PresentationLogged { nullifier, commitment });
        Ok(())
    }

    /// The anchor of a credential.
    pub fn credentials(&self, payload_hash: Hash32) -> (r: Option<&CredentialAnchor>)
        ensures
            match r {
                Some(a) => self.anchors().contains_key(payload_hash) && a@ == self.anchors()[payload_hash],
                None => !self.anchors().contains_key(payload_hash),
            },
    {
        self.credentials.get(&payload_hash)
    }

    /// The payload hashes anchored for a subject, in issue order.
    pub fn by_subject(&self, subject: &Did) -> (r: Vec<Hash32>)
        ensures
            r@ == hashes_of(self.subjects(), subject@),
    {
        match self.by_subject.get(subject) {
            Some(v) => copy_vec(v.as_slice()),
            None => Vec::new(),
        }
    }

    /// The commitment logged for a nullifier.
    pub fn presentations(&self, nullifier: Nullifier) -> (r: Option<Commitment>)
        ensures
            r == if self.logged().contains_key(nullifier) { Some(self.logged()[nullifier]) } else { None },
    {
        match self.presentations.get(&nullifier) {
            Some(c) => Some(*c),
            None => None,
        }
    }
}

} // verus!
