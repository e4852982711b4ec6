use ferrum::federation::{Error, Event, Pallet};
use ferrum::origin::Origin;
use ferrum::perbill::Perbill;
use ferrum::primitives::{AccountId, BasketEntry, CbdcCode, FederationAction, MemberId, Vote, XsuAmount, XsuBasket};
use ferrum::table::Table;
use ferrum::voting::passes_dual_majority;

const TIMELOCK: u32 = 10;

fn account(n: u8) -> AccountId {
    [n; 32]
}

fn member(n: u8) -> MemberId {
    let members: [[u8; 2]; 4] = [*b"TW", *b"JP", *b"US", *b"EU"];
    members[(n as usize) % 4]
}

fn signed(n: u8) -> Origin {
    Origin::Signed(account(n))
}

/// Seat the four council members with basket weights 40/30/20/10%, at block 1.
fn seeded() -> Pallet {
    let seats = (0..4u8).map(|n| (account(n), member(n))).collect();
    let council = vec![
        (member(0), Perbill::from_percent(40)),
        (member(1), Perbill::from_percent(30)),
        (member(2), Perbill::from_percent(20)),
        (member(3), Perbill::from_percent(10)),
    ];
    let mut f = Pallet::new(TIMELOCK, seats, council);
    f.set_block_number(1);
    f
}

fn propose_param_change(f: &mut Pallet) -> u64 {
    assert_eq!(f.propose(signed(0), FederationAction::SetParameter { key: b"fee".to_vec(), value: 42 }), Ok(()));
    0
}

fn usd_basket(f: &mut Pallet) {
    let basket = XsuBasket { entries: vec![BasketEntry { cbdc: *b"USD", weight: Perbill::from_percent(100) }], version: 1 };
    assert_eq!(f.set_basket(signed(0), basket), Ok(()));
}

#[test]
fn propose_creates_proposal_and_emits_event() {
    let mut f = seeded();
    let id = propose_param_change(&mut f);
    assert!(f.proposal(id).is_some());
    assert!(f.events().iter().any(|e| matches!(e, Event::Proposed { id: 0, by } if *by == member(0))));
}

#[test]
fn vote_records_ballot_and_rejects_double_vote() {
    let mut f = seeded();
    let id = propose_param_change(&mut f);
    assert_eq!(f.vote(signed(0), id, Vote::Aye), Ok(()));
    assert_eq!(f.vote(signed(0), id, Vote::Nay), Err(Error::AlreadyVoted));
}

#[test]
fn close_rejects_when_dual_majority_not_met() {
    let mut f = seeded();
    let id = propose_param_change(&mut f);
    assert_eq!(f.vote(signed(3), id, Vote::Aye), Ok(()));
    assert_eq!(f.vote(signed(0), id, Vote::Nay), Ok(()));
    assert_eq!(f.vote(signed(1), id, Vote::Nay), Ok(()));
    assert_eq!(f.vote(signed(2), id, Vote::Nay), Ok(()));
    assert_eq!(f.close(signed(0), id), Err(Error::Rejected));
    assert!(f.proposal(id).is_some());
}

#[test]
fn close_queues_on_dual_majority_and_on_initialize_enacts() {
    let mut f = seeded();
    let id = propose_param_change(&mut f);
    assert_eq!(f.vote(signed(0), id, Vote::Aye), Ok(()));
    assert_eq!(f.vote(signed(1), id, Vote::Aye), Ok(()));
    assert_eq!(f.vote(signed(2), id, Vote::Aye), Ok(()));
    assert_eq!(f.vote(signed(3), id, Vote::Nay), Ok(()));
    assert_eq!(f.close(signed(0), id), Ok(()));
    let eta = f.block_number() + TIMELOCK;
    assert_eq!(f.queued_at(eta), Some(id));
    f.set_block_number(eta);
    f.on_initialize(eta);
    assert!(f.proposal(id).is_none());
    assert!(f.events().iter().any(|e| matches!(e, Event::Enacted { id: 0 })));
}

#[test]
fn admit_member_action_seats_new_member_on_enact() {
    let mut f = seeded();
    assert_eq!(f.propose(signed(0), FederationAction::AdmitMember { member: *b"CN" }), Ok(()));
    let id = 0;
    for n in 0..4u8 {
        assert_eq!(f.vote(signed(n), id, Vote::Aye), Ok(()));
    }
    assert_eq!(f.close(signed(0), id), Ok(()));
    let eta = f.block_number() + TIMELOCK;
    f.set_block_number(eta);
    f.on_initialize(eta);
    assert!(f.is_member(b"CN"));
}

#[test]
fn set_basket_requires_balanced_weights() {
    let mut f = seeded();
    let basket = XsuBasket { entries: vec![BasketEntry { cbdc: *b"USD", weight: Perbill::from_percent(50) }], version: 1 };
    assert_eq!(f.set_basket(signed(0), basket), Err(Error::UnbalancedBasket));
}

#[test]
fn mint_and_redeem_xsu_round_trip() {
    let mut f = seeded();
    usd_basket(&mut f);
    let cbdc: CbdcCode = *b"USD";
    assert_eq!(f.mint_xsu(signed(0), cbdc, 1_000), Ok(()));
    assert_eq!(f.xsu_issued(), 1_000);
    assert_eq!(f.xsu_balance(&member(0)), 1_000);
    assert_eq!(f.reserve_of(&cbdc), 1_000);
    assert_eq!(f.redeem_xsu(signed(0), cbdc, 400), Ok(()));
    assert_eq!(f.xsu_issued(), 600);
    assert_eq!(f.xsu_balance(&member(0)), 600);
    assert_eq!(f.reserve_of(&cbdc), 600);
}

#[test]
fn book_clearing_moves_net_position_and_settle_emits_event() {
    let mut f = seeded();
    usd_basket(&mut f);
    assert_eq!(f.mint_xsu(signed(0), *b"USD", 1_000), Ok(()));
    assert_eq!(f.book_clearing(signed(0), member(1), XsuAmount(200)), Ok(()));
    assert_eq!(f.xsu_balance(&member(0)), 800);
    assert_eq!(f.xsu_balance(&member(1)), 200);
    assert_eq!(f.xsu_issued(), 1_000);
    assert_eq!(f.net_and_settle(signed(0), 1), Ok(()));
    assert!(f.events().iter().any(|e| matches!(e, Event::NetSettled { window: 1 })));
}

#[test]
fn publish_proof_of_reserve_records_digest() {
    let mut f = seeded();
    usd_basket(&mut f);
    assert_eq!(f.mint_xsu(signed(0), *b"USD", 1_000), Ok(()));
    assert_eq!(f.publish_proof_of_reserve(signed(0)), Ok(()));
    let (block, digest) = f.last_proof_of_reserve().unwrap();
    assert_eq!(block, 1);
    assert_eq!(digest, f.compute_reserve_digest());
}

#[test]
fn redeem_beyond_holdings_is_refused_and_backing_holds() {
    let mut f = seeded();
    usd_basket(&mut f);
    assert_eq!(f.mint_xsu(signed(0), *b"USD", 300), Ok(()));
    assert_eq!(f.redeem_xsu(signed(0), *b"USD", 301), Err(Error::InsufficientXsu));
    assert_eq!(f.xsu_issued(), 300);
    assert_eq!(f.reserve_of(b"USD"), 300);
    assert_eq!(f.xsu_balance(&member(0)), 300);
}

#[test]
fn non_member_cannot_propose() {
    let mut f = seeded();
    assert_eq!(
        f.propose(Origin::Signed(account(9)), FederationAction::AdmitMember { member: *b"CN" }),
        Err(Error::BadOrigin)
    );
    assert_eq!(f.propose(Origin::Unsigned, FederationAction::AdmitMember { member: *b"CN" }), Err(Error::BadOrigin));
}

fn ballot(entries: &[(&[u8; 2], Vote)]) -> Vec<(MemberId, Vote)> {
    entries.iter().map(|(m, v)| (**m, *v)).collect()
}

fn weights(entries: &[(&[u8; 2], u32)]) -> Table<MemberId, Perbill> {
    let mut t = Table::new();
    for (m, p) in entries {
        t.insert(**m, Perbill::from_percent(*p));
    }
    t
}

#[test]
fn passes_when_both_axes_clear_two_thirds() {
    let votes = ballot(&[(b"TW", Vote::Aye), (b"JP", Vote::Aye), (b"US", Vote::Nay)]);
    let basket = weights(&[(b"TW", 40), (b"JP", 30), (b"US", 30)]);
    let threshold = Perbill::from_rational(2u32, 3u32);
    assert!(passes_dual_majority(&votes, &basket, threshold));
}

#[test]
fn fails_when_weight_axis_falls_short() {
    let votes = ballot(&[(b"TW", Vote::Aye), (b"JP", Vote::Aye), (b"US", Vote::Nay)]);
    let basket = weights(&[(b"TW", 10), (b"JP", 10), (b"US", 80)]);
    let threshold = Perbill::from_rational(2u32, 3u32);
    assert!(!passes_dual_majority(&votes, &basket, threshold));
}

#[test]
fn fails_when_count_axis_falls_short() {
    let votes = ballot(&[(b"TW", Vote::Aye), (b"JP", Vote::Nay), (b"US", Vote::Nay), (b"CN", Vote::Nay)]);
    let basket = weights(&[(b"TW", 90), (b"JP", 4), (b"US", 3), (b"CN", 3)]);
    let threshold = Perbill::from_rational(2u32, 3u32);
    assert!(!passes_dual_majority(&votes, &basket, threshold));
}

#[test]
fn empty_votes_do_not_pass() {
    let votes: Vec<(MemberId, Vote)> = Vec::new();
    let basket: Table<MemberId, Perbill> = Table::new();
    let threshold = Perbill::from_rational(2u32, 3u32);
    assert!(!passes_dual_majority(&votes, &basket, threshold));
}

#[test]
fn an_aye_never_turns_a_pass_into_a_fail() {
    let basket = weights(&[(b"TW", 40), (b"JP", 30), (b"US", 30)]);
    let threshold = Perbill::from_rational(2u32, 3u32);
    let votes = ballot(&[(b"TW", Vote::Aye), (b"JP", Vote::Aye), (b"US", Vote::Nay)]);
    assert!(passes_dual_majority(&votes, &basket, threshold));
    let raised = ballot(&[(b"TW", Vote::Aye), (b"JP", Vote::Aye), (b"US", Vote::Aye)]);
    assert!(passes_dual_majority(&raised, &basket, threshold));
}

fn enact_by_vote(f: &mut Pallet, action: FederationAction) {
    assert_eq!(f.propose(signed(0), action), Ok(()));
    for n in 0..4u8 {
        assert_eq!(f.vote(signed(n), 0, Vote::Aye), Ok(()));
    }
    assert_eq!(f.close(signed(1), 0), Ok(()));
    let eta = f.block_number() + TIMELOCK;
    f.set_block_number(eta);
    f.on_initialize(eta);
    assert!(f.proposal(0).is_none());
}

#[test]
fn a_balanced_reweight_puts_the_basket_in_force_on_enact() {
    let mut f = seeded();
    assert_eq!(f.mint_xsu(signed(0), *b"EUR", 100), Err(Error::UnknownCbdc));
    let basket = XsuBasket { entries: vec![BasketEntry { cbdc: *b"EUR", weight: Perbill::from_percent(100) }], version: 2 };
    enact_by_vote(&mut f, FederationAction::Reweight { basket });
    let n = f.events().len();
    assert!(matches!(f.events()[n - 2], Event::BasketReweighted { version: 2 }));
    assert!(matches!(f.events()[n - 1], Event::Enacted { id: 0 }));
    assert_eq!(f.mint_xsu(signed(0), *b"EUR", 100), Ok(()));
    assert_eq!(f.xsu_issued(), 100);
}

#[test]
fn an_unbalanced_reweight_changes_nothing_on_enact() {
    let mut f = seeded();
    let basket = XsuBasket { entries: vec![BasketEntry { cbdc: *b"EUR", weight: Perbill::from_percent(60) }], version: 2 };
    enact_by_vote(&mut f, FederationAction::Reweight { basket });
    let n = f.events().len();
    assert!(matches!(f.events()[n - 1], Event::Enacted { id: 0 }));
    assert!(!f.events().iter().any(|e| matches!(e, Event::BasketReweighted { .. })));
    assert_eq!(f.mint_xsu(signed(0), *b"EUR", 100), Err(Error::UnknownCbdc));
}

#[test]
fn removing_a_member_unseats_it_on_enact() {
    let mut f = seeded();
    assert!(f.is_member(&member(3)));
    enact_by_vote(&mut f, FederationAction::RemoveMember { member: member(3) });
    assert!(!f.is_member(&member(3)));
    let n = f.events().len();
    assert!(matches!(f.events()[n - 2], Event::MembershipChanged { seated: false, .. }));
}
