//! The common types every module agrees on: account and balance aliases, the
//! `did:fer` identifiers, credential and tax records, the XSU basket and the
//! federation actions, and the interop records. Only commitments and hashes
//! describe people; no plaintext personal data appears in any of them.
use vstd::prelude::*;
use crate::perbill::{Perbill, BILLION};
use crate::table::{slice_eq, TableKey};

verus! {

// ---------------------------------------------------------------------------
// Chain aliases and constants
// ---------------------------------------------------------------------------

/// A 32-byte account identifier.
pub type AccountId = [u8; 32];

/// Index of a transaction (account nonce).
pub type Nonce = u32;

/// Balance of an account, in the smallest FER unit.
pub type Balance = u128;

/// On-chain block number.
pub type BlockNumber = u32;

/// Milliseconds since the Unix epoch.
pub type Moment = u64;

/// A 32-byte hash.
pub type Hash32 = [u8; 32];

/// A commitment hiding off-chain data.
pub type Commitment = Hash32;

/// A one-time nullifier.
pub type Nullifier = Hash32;

/// Max length of a `did:fer` method-specific identifier, in bytes.
pub const MAX_DID_LEN: u32 = 128;

/// Max number of key references in a DID document.
pub const MAX_DID_KEYS: u32 = 16;

/// Max length of a chain / scope tag, in bytes.
pub const MAX_TAG_LEN: u32 = 16;

/// Max members of the federation council / entries of the XSU basket.
pub const MAX_FEDERATION_MEMBERS: u32 = 64;

/// Max metadata blob length, in bytes.
pub const MAX_META_LEN: u32 = 256;

/// Decimal places of FER.
pub const FER_DECIMALS: u32 = 12;

/// One whole FER in its smallest unit (10^12).
pub const FER: Balance = 1_000_000_000_000;

/// Minimum validator bond.
pub const MIN_VALIDATOR_BOND: Balance = 250_000 * FER;

/// Block authoring slot, in milliseconds.
pub const SLOT_DURATION_MS: Moment = 3_000;

/// Cap on validator nodes.
pub const MAX_AUTHORITIES: u32 = 100;

/// Decimal precision of [`XsuAmount`].
pub const XSU_DECIMALS: u32 = 6;

/// Max length of serialized proof bytes.
pub const MAX_PROOF_LEN: u32 = 2048;

/// Serialized zero-knowledge proof bytes.
pub type ProofBytes = Vec<u8>;

/// Serialized verifying-key bytes.
pub type VerifyingKeyBytes = Vec<u8>;

/// Serialized verifying-key bytes held in the interop registry.
pub type BoundedVkBytes = Vec<u8>;

// ---------------------------------------------------------------------------
// Identity
// ---------------------------------------------------------------------------

/// A `did:fer` identifier: the source-chain tag and the method-specific id.
#[derive(Debug, PartialEq, Eq, PartialOrd, Ord)]
pub struct Did {
    pub chain_tag: Vec<u8>,
    pub id: Vec<u8>,
}

/// What a [`Did`] denotes: its two byte strings.
pub struct DidView {
    pub chain_tag: Seq<u8>,
    pub id: Seq<u8>,
}

impl View for Did {
    type V = DidView;

    open spec fn view(&self) -> DidView {
        DidView { chain_tag: self.chain_tag@, id: self.id@ }
    }
}

/// A copy of a sequence of plain values.
pub fn copy_vec<T: Copy>(v: &[T]) -> (r: Vec<T>)
    ensures
        r@ == v@,
{
    let mut r: Vec<T> = Vec::new();
    let mut i: usize = 0;
    while i < v.len()
        invariant
            i <= v@.len(),
            r@ == v@.subrange(0, i as int),
        decreases v@.len() - i,
    {
        r.push(v[i]);
        i = i + 1;
        assert(r@ =~= v@.subrange(0, i as int));
    }
    assert(v@.subrange(0, v@.len() as int) =~= v@);
    r
}

impl Did {
    /// A copy of this identifier.
    pub fn copy(&self) -> (r: Did)
        ensures
            r@ == self@,
    {
        Did { chain_tag: copy_vec(self.chain_tag.as_slice()), id: copy_vec(self.id.as_slice()) }
    }

    /// Whether this DID was issued on the local chain carrying `local_tag`.
    pub fn is_local(&self, local_tag: &[u8]) -> (r: bool)
        ensures
            r == (self.chain_tag@ == local_tag@),
    {
        slice_eq(self.chain_tag.as_slice(), local_tag)
    }
}

impl TableKey for Did {
    type KeyView = DidView;

    open spec fn key(&self) -> DidView {
        self@
    }

    fn key_eq(&self, other: &Self) -> (r: bool) {
        slice_eq(self.chain_tag.as_slice(), other.chain_tag.as_slice()) && slice_eq(
            self.id.as_slice(),
            other.id.as_slice(),
        )
    }

    fn key_copy(&self) -> (r: Self) {
        self.copy()
    }
}

/// The kind of key referenced by a DID document entry.
#[derive(Clone, Copy, Debug, PartialEq, Eq)]
pub enum KeyKind {
    Sr25519,
    Ed25519,
    Bls12_381,
}

/// A key reference inside a DID document: only the key's hash.
#[derive(Clone, Copy, Debug, PartialEq, Eq)]
pub struct DidKeyRef {
    pub kind: KeyKind,
    pub key_hash: Hash32,
}

/// The on-chain anchor of a DID: the document hash, the controller, key
/// references and a revocation commitment.
#[derive(Debug, PartialEq, Eq)]
pub struct DidDocument {
    pub did: Did,
    pub controller: AccountId,
    pub doc_hash: Hash32,
    pub keys: Vec<DidKeyRef>,
    pub revocation_commitment: Commitment,
    pub anchored_at: BlockNumber,
}

// ---------------------------------------------------------------------------
// Credentials
// ---------------------------------------------------------------------------

/// The class of claim asserted by a credential.
#[derive(Clone, Copy, Debug, PartialEq, Eq)]
pub enum CredentialKind {
    Nationality,
    Age,
    Residence,
    TaxStatus,
    Other,
}

/// Lifecycle status of an anchored credential.
#[derive(Clone, Copy, Debug, PartialEq, Eq)]
pub enum CredentialStatus {
    Active,
    Suspended,
    Revoked,
    Expired,
}

/// The on-chain anchor of a credential: subject, issuer, kind, the hash of the
/// issuer-signed payload, status and optional expiry.
#[derive(Debug, PartialEq, Eq)]
pub struct CredentialAnchor {
    pub subject: Did,
    pub issuer: AccountId,
    pub kind: CredentialKind,
    pub payload_hash: Hash32,
    pub status: CredentialStatus,
    pub expires_at: Option<Moment>,
}

// ---------------------------------------------------------------------------
// Tax
// ---------------------------------------------------------------------------

/// An ISO-4217-style currency code, three ASCII bytes.
pub type FiatCurrency = [u8; 3];

/// An amount of fiat money in the currency's minor unit.
#[derive(Clone, Copy, Debug, PartialEq, Eq, PartialOrd, Ord)]
pub struct FiatAmount {
    pub currency: FiatCurrency,
    pub minor_units: u128,
}

/// A tax bracket: its index and rate.
#[derive(Clone, Copy, Debug)]
pub struct TaxBracket {
    pub index: u8,
    pub rate: Perbill,
}

/// Category of taxable event.
#[derive(Clone, Copy, Debug, PartialEq, Eq)]
pub enum TaxKind {
    Income,
    Wage,
    Interest,
    ValueAdded,
    Withholding,
    Other,
}

/// Whether two tax kinds are the same kind.
pub fn tax_kind_eq(a: TaxKind, b: TaxKind) -> (r: bool)
    ensures
        r == (a == b),
{
    match (a, b) {
        (TaxKind::Income, TaxKind::Income) => true,
        (TaxKind::Wage, TaxKind::Wage) => true,
        (TaxKind::Interest, TaxKind::Interest) => true,
        (TaxKind::ValueAdded, TaxKind::ValueAdded) => true,
        (TaxKind::Withholding, TaxKind::Withholding) => true,
        (TaxKind::Other, TaxKind::Other) => true,
        _ => false,
    }
}

/// An e-invoice anchor: the invoice hash and its metadata.
#[derive(Clone, Copy, Debug, PartialEq, Eq)]
pub struct InvoiceAnchor {
    pub invoice_hash: Hash32,
    pub issuer: AccountId,
    pub kind: TaxKind,
    pub anchored_at: Moment,
}

/// A filed tax obligation, always fiat-denominated.
#[derive(Debug, PartialEq, Eq)]
pub struct TaxObligation {
    pub subject: Did,
    pub kind: TaxKind,
    pub amount_due: FiatAmount,
    pub detail_commitment: Commitment,
    pub settled: bool,
}

// ---------------------------------------------------------------------------
// Federation and XSU
// ---------------------------------------------------------------------------

/// An ISO-3166-style country code, two ASCII bytes.
pub type CountryId = [u8; 2];

/// Identifier of a federation.
pub type FederationId = u32;

/// A member seat of the federation council (one per nation).
pub type MemberId = CountryId;

/// Identifier of a governance proposal.
pub type ProposalId = u64;

/// A CBDC code of the XSU basket.
pub type CbdcCode = FiatCurrency;

/// One basket component: a CBDC and its fixed weight.
#[derive(Clone, Copy, Debug)]
pub struct BasketEntry {
    pub cbdc: CbdcCode,
    pub weight: Perbill,
}

/// The XSU: a fixed-weight basket of member CBDCs, with a version bumped on
/// every reweighting.
#[derive(Clone, Debug)]
pub struct XsuBasket {
    pub entries: Vec<BasketEntry>,
    pub version: u32,
}

/// The weights of `entries` added up one by one, each partial sum capped at
/// one whole.
pub open spec fn capped_weight_sum(entries: Seq<BasketEntry>) -> int
    decreases entries.len(),
{
    if entries.len() == 0 {
        0
    } else {
        let s = capped_weight_sum(entries.drop_last()) + entries.last().weight.value();
        if s > BILLION {
            BILLION as int
        } else {
            s
        }
    }
}

impl XsuBasket {
    /// Sum of the component weights, capped at one whole.
    pub fn total_weight(&self) -> (r: Perbill)
        ensures
            r.value() == capped_weight_sum(self.entries@),
    {
        let mut acc = Perbill::zero();
        let mut i: usize = 0;
        while i < self.entries.len()
            invariant
                i <= self.entries@.len(),
                acc.value() == capped_weight_sum(self.entries@.subrange(0, i as int)),
            decreases self.entries@.len() - i,
        {
            proof {
                assert(self.entries@.subrange(0, i + 1).drop_last() =~= self.entries@.subrange(
                    0,
                    i as int,
                ));
            }
            acc = acc.saturating_add(self.entries[i].weight);
            i = i + 1;
        }
        assert(self.entries@.subrange(0, i as int) =~= self.entries@);
        acc
    }

    /// Whether the weights sum to exactly one whole.
    pub fn is_balanced(&self) -> (r: bool)
        ensures
            r == (weight_sum(self.entries@) == BILLION),
    {
        let mut acc: u64 = 0;
        let mut i: usize = 0;
        while i < self.entries.len()
            invariant
                i <= self.entries@.len(),
                acc == weight_sum(self.entries@.subrange(0, i as int)),
                acc <= BILLION,
            decreases self.entries@.len() - i,
        {
            proof {
                assert(self.entries@.subrange(0, i + 1).drop_last() =~= self.entries@.subrange(0, i as int));
            }
            acc = acc + self.entries[i].weight.deconstruct() as u64;
            if acc > BILLION as u64 {
                proof {
                    lemma_weight_sum_prefix(self.entries@, i + 1);
                }
                return false;
            }
            i = i + 1;
        }
        assert(self.entries@.subrange(0, i as int) =~= self.entries@);
        acc == BILLION as u64
    }
}

/// The weights of `entries` added up, uncapped.
pub open spec fn weight_sum(entries: Seq<BasketEntry>) -> int
    decreases entries.len(),
{
    if entries.len() == 0 {
        0
    } else {
        weight_sum(entries.drop_last()) + entries.last().weight.value()
    }
}

/// A prefix never weighs more than the whole: every weight is non-negative.
proof fn lemma_weight_sum_prefix(s: Seq<BasketEntry>, k: int)
    requires
        0 <= k <= s.len(),
    ensures
        weight_sum(s.subrange(0, k)) <= weight_sum(s),
    decreases s.len() - k,
{
    if k < s.len() {
        lemma_weight_sum_prefix(s, k + 1);
        assert(s.subrange(0, k + 1).drop_last() =~= s.subrange(0, k));
        crate::perbill::lemma_value_nonneg(s[k].weight);
    } else {
        assert(s.subrange(0, k) =~= s);
    }
}

/// An amount in XSU minor units.
#[derive(Clone, Copy, Debug, PartialEq, Eq, PartialOrd, Ord)]
pub struct XsuAmount(pub u128);

/// A ballot of a council member.
#[derive(Clone, Copy, Debug, PartialEq, Eq)]
pub enum Vote {
    Aye,
    Nay,
    Abstain,
}

/// Governance domains, each with its own threshold and timelock.
#[derive(Clone, Copy, Debug, PartialEq, Eq)]
pub enum GovernanceDomain {
    Parameter,
    Membership,
    Reweighting,
    Constitutional,
    Emergency,
    Dispute,
}

/// A federation-level action subject to governance.
#[derive(Clone, Debug)]
pub enum FederationAction {
    SetParameter { key: Vec<u8>, value: u128 },
    AdmitMember { member: MemberId },
    RemoveMember { member: MemberId },
    Reweight { basket: XsuBasket },
    SuspendMember { member: MemberId },
    RuntimeUpgrade { code_hash: Hash32 },
}

/// The governance domain of an action.
pub open spec fn spec_domain(a: FederationAction) -> GovernanceDomain {
    match a {
        FederationAction::SetParameter { .. } => GovernanceDomain::Parameter,
        FederationAction::AdmitMember { .. } => GovernanceDomain::Membership,
        FederationAction::RemoveMember { .. } => GovernanceDomain::Membership,
        FederationAction::Reweight { .. } => GovernanceDomain::Reweighting,
        FederationAction::SuspendMember { .. } => GovernanceDomain::Dispute,
        FederationAction::RuntimeUpgrade { .. } => GovernanceDomain::Constitutional,
    }
}

impl FederationAction {
    /// The governance domain this action falls under.
    pub fn domain(&self) -> (r: GovernanceDomain)
        ensures
            r == spec_domain(*self),
    {
        match self {
            FederationAction::SetParameter { .. } => GovernanceDomain::Parameter,
            FederationAction::AdmitMember { .. } => GovernanceDomain::Membership,
            FederationAction::RemoveMember { .. } => GovernanceDomain::Membership,
            FederationAction::Reweight { .. } => GovernanceDomain::Reweighting,
            FederationAction::SuspendMember { .. } => GovernanceDomain::Dispute,
            FederationAction::RuntimeUpgrade { .. } => GovernanceDomain::Constitutional,
        }
    }
}

/// The dual-majority threshold of a domain, in parts per billion.
pub open spec fn spec_domain_threshold(d: GovernanceDomain) -> int {
    match d {
        GovernanceDomain::Parameter => 666_666_666,
        GovernanceDomain::Reweighting => 666_666_666,
        GovernanceDomain::Membership => 750_000_000,
        GovernanceDomain::Dispute => 750_000_000,
        GovernanceDomain::Constitutional => 850_000_000,
        GovernanceDomain::Emergency => 0,
    }
}

/// The threshold a proposal must clear follows its action's weight: a
/// runtime upgrade is constitutional (85%) and is the strictest of all
/// actions; admitting or removing a member and suspending one need three
/// quarters; a parameter change or a basket reweighting needs two thirds.
pub proof fn lemma_action_thresholds(a: FederationAction, code_hash: Hash32)
    ensures
        spec_domain_threshold(spec_domain(FederationAction::RuntimeUpgrade { code_hash })) == 850_000_000,
        !(a is RuntimeUpgrade) ==> spec_domain_threshold(spec_domain(a)) < spec_domain_threshold(
            spec_domain(FederationAction::RuntimeUpgrade { code_hash }),
        ),
        (a is AdmitMember || a is RemoveMember || a is SuspendMember) ==> spec_domain_threshold(spec_domain(a))
            == 750_000_000,
        (a is SetParameter || a is Reweight) ==> spec_domain_threshold(spec_domain(a)) == 666_666_666,
        spec_domain(FederationAction::RuntimeUpgrade { code_hash }) == GovernanceDomain::Constitutional,
{
}

/// The dual-majority threshold of a domain: two thirds for parameters and
/// reweighting, three quarters for membership and disputes, 85% for
/// constitutional changes, none for the emergency path.
pub fn domain_threshold(domain: GovernanceDomain) -> (r: Perbill)
    ensures
        r.value() == spec_domain_threshold(domain),
{
    match domain {
        GovernanceDomain::Parameter | GovernanceDomain::Reweighting => Perbill::from_rational(
            2,
            3,
        ),
        GovernanceDomain::Membership | GovernanceDomain::Dispute => Perbill::from_rational(3, 4),
        GovernanceDomain::Constitutional => Perbill::from_percent(85),
        GovernanceDomain::Emergency => Perbill::from_percent(0),
    }
}

// ---------------------------------------------------------------------------
// Interop
// ---------------------------------------------------------------------------

/// An accredited issuer in the cross-chain trust registry.
#[derive(Debug, PartialEq, Eq)]
pub struct TrustRegistryEntry {
    pub country: CountryId,
    pub issuer_key_hash: Hash32,
    pub scope: Vec<u8>,
    pub active: bool,
}

/// Status of a cross-consensus message.
#[derive(Clone, Copy, Debug, PartialEq, Eq)]
pub enum XcmStatus {
    Pending,
    FinalityVerified,
    Accepted,
    Rejected,
}

/// A cross-border settlement instruction priced in XSU.
#[derive(Clone, Copy, Debug, PartialEq, Eq)]
pub struct ClearingInstruction {
    pub from: CountryId,
    pub to: CountryId,
    pub amount: XsuAmount,
    pub detail_commitment: Commitment,
    pub status: XcmStatus,
}

/// Public inputs of the age-threshold proof, in verifier order.
#[derive(Clone, Copy, Debug, PartialEq, Eq)]
pub struct AgeProofPublicInputs {
    pub issuer_commitment: Commitment,
    pub threshold: u32,
    pub nullifier: Nullifier,
}

/// A GRANDPA authority of a bridged chain and its voting weight.
#[derive(Clone, Copy, Debug, PartialEq, Eq)]
pub struct GrandpaAuthority {
    pub id: [u8; 32],
    pub weight: u64,
}

/// The recognized GRANDPA authority set of a bridged chain.
#[derive(Clone, Debug, PartialEq, Eq)]
pub struct GrandpaAuthoritySet {
    pub authorities: Vec<GrandpaAuthority>,
    pub set_id: u64,
}

/// The weights of `auths` added up, saturating at `u64::MAX`.
pub open spec fn saturating_weight_sum(auths: Seq<GrandpaAuthority>) -> int
    decreases auths.len(),
{
    if auths.len() == 0 {
        0
    } else {
        let s = saturating_weight_sum(auths.drop_last()) + auths.last().weight;
        if s > u64::MAX {
            u64::MAX as int
        } else {
            s
        }
    }
}

/// The total weight of a set of authorities is the sum of their weights,
/// or `u64::MAX` when that sum does not fit.
pub proof fn lemma_weight_sum_is_total(auths: Seq<GrandpaAuthority>)
    ensures
        ({
            let total = auths.map_values(|x: GrandpaAuthority| x.weight as int).fold_left(0int, |acc: int, w: int| acc + w);
            saturating_weight_sum(auths) == if total > u64::MAX { u64::MAX as int } else { total }
        }),
    decreases auths.len(),
{
    let f = |acc: int, w: int| acc + w;
    let ws = auths.map_values(|x: GrandpaAuthority| x.weight as int);
    if auths.len() > 0 {
        let rest = auths.drop_last();
        lemma_weight_sum_is_total(rest);
        assert(ws.drop_last() =~= rest.map_values(|x: GrandpaAuthority| x.weight as int));
        lemma_weights_nonneg(rest);
    }
}

/// A sum of weights is never negative.
proof fn lemma_weights_nonneg(auths: Seq<GrandpaAuthority>)
    ensures
        auths.map_values(|x: GrandpaAuthority| x.weight as int).fold_left(0int, |acc: int, w: int| acc + w) >= 0,
    decreases auths.len(),
{
    if auths.len() > 0 {
        lemma_weights_nonneg(auths.drop_last());
        assert(auths.map_values(|x: GrandpaAuthority| x.weight as int).drop_last()
            =~= auths.drop_last().map_values(|x: GrandpaAuthority| x.weight as int));
    }
}

impl GrandpaAuthoritySet {
    /// Total voting weight of the set, saturating at `u64::MAX`.
    pub fn total_weight(&self) -> (r: u64)
        ensures
            r == saturating_weight_sum(self.authorities@),
    {
        let mut acc: u64 = 0;
        let mut i: usize = 0;
        while i < self.authorities.len()
            invariant
                i <= self.authorities@.len(),
                acc == saturating_weight_sum(self.authorities@.subrange(0, i as int)),
            decreases self.authorities@.len() - i,
        {
            proof {
                assert(self.authorities@.subrange(0, i + 1).drop_last()
                    =~= self.authorities@.subrange(0, i as int));
            }
            acc = acc.saturating_add(self.authorities[i].weight);
            i = i + 1;
        }
        assert(self.authorities@.subrange(0, i as int) =~= self.authorities@);
        acc
    }
}

/// One signed GRANDPA precommit.
#[derive(Clone, Copy, Debug, PartialEq, Eq)]
pub struct SignedPrecommit {
    pub target_hash: [u8; 32],
    pub target_number: u32,
    pub authority: [u8; 32],
    pub signature: [u8; 64],
}

/// A GRANDPA finality proof: the commit target and the signed precommits of
/// one round under one authority set.
#[derive(Clone, Debug, PartialEq, Eq)]
pub struct GrandpaFinalityProof {
    pub round: u64,
    pub set_id: u64,
    pub target_hash: [u8; 32],
    pub target_number: u32,
    pub precommits: Vec<SignedPrecommit>,
}

/// How a tax treaty relieves double taxation.
#[derive(Clone, Copy, Debug, PartialEq, Eq)]
pub enum CreditMethod {
    Credit,
    Exemption,
}

/// A bilateral tax treaty.
#[derive(Clone, Copy, Debug)]
pub struct TaxTreaty {
    pub withholding_cap: Perbill,
    pub method: CreditMethod,
    pub active: bool,
}

/// A One-Stop-Shop VAT registration.
#[derive(Clone, Copy, Debug, PartialEq, Eq)]
pub struct OssRegistration {
    pub home: CountryId,
    pub vat_id_commitment: Commitment,
    pub active: bool,
}

/// The answer of the universal DID resolver.
#[derive(Debug, PartialEq, Eq)]
pub enum DidResolution {
    /// A local DID and its anchored document.
    Local(DidDocument),
    /// A local DID with no anchored document.
    LocalUnknown,
    /// A foreign DID: its source country and whether that country has a
    /// recognized issuer.
    Foreign { country: CountryId, recognized: bool },
}

} // verus!
