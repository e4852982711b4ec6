//! Who dispatches a call: the root (governance) origin, a signed account,
//! or nobody (an unsigned inherent).
use vstd::prelude::*;
use crate::primitives::AccountId;

verus! {

/// The origin of a dispatched call.
#[derive(Clone, Copy, Debug, PartialEq, Eq)]
pub enum Origin {
    /// The governance (root) origin.
    Root,
    /// A call signed by an account.
    Signed(AccountId),
    /// An unsigned call.
    Unsigned,
}

/// The signer of a signed origin.
pub open spec fn signer_of(o: Origin) -> Option<AccountId> {
    match o {
        Origin::Signed(a) => Some(a),
        _ => None,
    }
}

/// The signer of a signed origin, `None` otherwise.
pub fn ensure_signed(o: &Origin) -> (r: Option<AccountId>)
    ensures
        r == signer_of(*o),
{
    match o {
        Origin::Signed(a) => Some(*a),
        _ => None,
    }
}

/// Whether the origin is root.
pub fn is_root(o: &Origin) -> (r: bool)
    ensures
        r == (*o == Origin::Root),
{
    match o {
        Origin::Root => true,
        _ => false,
    }
}

/// Which origins a role accepts, as a runtime configures it.
#[derive(Clone, Copy, Debug, PartialEq, Eq)]
pub enum OriginRule {
    /// Only the root (governance) origin.
    Root,
    /// Any signed account.
    AnySigned,
    /// One given account.
    SignedBy(AccountId),
}

/// Whether a rule accepts an origin.
pub open spec fn admits(rule: OriginRule, o: Origin) -> bool {
    match rule {
        OriginRule::Root => o == Origin::Root,
        OriginRule::AnySigned => o is Signed,
        OriginRule::SignedBy(a) => o == Origin::Signed(a),
    }
}

/// Whether `rule` accepts `o`.
pub fn ensure_origin(rule: &OriginRule, o: &Origin) -> (r: bool)
    ensures
        r == admits(*rule, *o),
{
    match rule {
        OriginRule::Root => is_root(o),
        OriginRule::AnySigned => match o {
            Origin::Signed(_) => true,
            _ => false,
        },
        OriginRule::SignedBy(a) => match o {
            Origin::Signed(b) => crate::table::bytes_eq(a, b),
            _ => false,
        },
    }
}

} // verus!
