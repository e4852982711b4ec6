//! Ferrum: the ledger logic of a sovereign identity and tax chain — DID and
//! credential registries, tax administration, the treasury, federation
//! governance with the XSU reserve, cross-border interop with a GRANDPA light
//! client, and the e-invoice lottery.
use vstd::prelude::*;

pub mod credential;
pub mod federation;
pub mod grandpa;
pub mod hashing;
pub mod identity;
pub mod interop;
pub mod lottery;
pub mod origin;
pub mod perbill;
pub mod primitives;
pub mod scale;
pub mod table;
pub mod tax;
pub mod treasury;
pub mod voting;
pub mod zk;

verus! {

} // verus!
