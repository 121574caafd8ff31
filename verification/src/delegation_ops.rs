//! The delegation registry and the token-balance snapshots.

use vstd::prelude::*;

use crate::calls::check_shape;
use crate::calls::shape_error;
use crate::calls::CallShape;
use crate::entities::Delegation;
use crate::entities::DelegationV;
use crate::entities::TokenBalance;
use crate::entities::TokenBalanceV;
use crate::errors::OpError;
use crate::errors::VotingError;
use crate::keys::key_eq;
use crate::keys::record_id_spec;
use crate::keys::PubKey;
use crate::poll_ops::opt_view;

verus! {

// ---------------------------------------------------------------------------
// DelegateVote

/// The failure of a DelegateVote call, in check order, or `None` when it
/// succeeds: an expiration, when given, must lie strictly in the future.
pub open spec fn delegate_vote_error(
    shape: CallShape,
    expiration: Option<u64>,
    now: u64,
) -> Option<OpError> {
    let se = shape_error(shape, 3);
    if se is Some {
        se
    } else {
        match expiration {
            Some(exp) => if exp <= now {
                Some(OpError::Voting(VotingError::InvalidPollParameters))
            } else {
                None
            },
            None => None,
        }
    }
}

/// The DelegateVote handler: creates an active delegation, scoped to one
/// poll or to all polls, with its id derived like a poll id.
pub fn process_delegate_vote(
    shape: &CallShape,
    delegator: &PubKey,
    delegate: &PubKey,
    poll_id: Option<u64>,
    expiration: Option<u64>,
    now: u64,
) -> (r: Result<Delegation, OpError>)
    ensures
        match r {
            Ok(d) => {
                &&& delegate_vote_error(*shape, expiration, now) is None
                &&& d@ == (DelegationV {
                    id: record_id_spec(now, delegator@),
                    delegator: delegator@,
                    delegate: delegate@,
                    poll_id,
                    expiration,
                    is_active: true,
                })
            },
            Err(e) => Some(e) == delegate_vote_error(*shape, expiration, now),
        },
{
    match check_shape(shape, 3) {
        Ok(()) => {},
        Err(e) => {
            return Err(e);
        },
    }
    if let Some(exp) = expiration {
        if exp <= now {
            return Err(OpError::Voting(VotingError::InvalidPollParameters));
        }
    }
    let delegation_id = crate::keys::derive_record_id(now, delegator);
    Ok(
        Delegation {
            id: delegation_id,
            delegator: *delegator,
            delegate: *delegate,
            poll_id,
            expiration,
            is_active: true,
        },
    )
}

// ---------------------------------------------------------------------------
// RevokeDelegation

/// The failure of a RevokeDelegation call, in check order, or `None` when it
/// succeeds: the delegation must exist under the given id and only its
/// delegator may revoke it.
pub open spec fn revoke_delegation_error(
    shape: CallShape,
    caller: Seq<u8>,
    delegation: Option<DelegationV>,
    delegation_id: u64,
) -> Option<OpError> {
    let se = shape_error(shape, 2);
    if se is Some {
        se
    } else {
        match delegation {
            None => Some(OpError::Voting(VotingError::DelegationNotFound)),
            Some(d) => if d.id != delegation_id {
                Some(OpError::Voting(VotingError::DelegationNotFound))
            } else if d.delegator != caller {
                Some(OpError::Voting(VotingError::NotDelegator))
            } else {
                None
            },
        }
    }
}

/// The RevokeDelegation handler: deactivates a delegation, one way — a
/// revoked delegation is never reactivated by any operation.
pub fn process_revoke_delegation(
    shape: &CallShape,
    caller: &PubKey,
    delegation: Option<Delegation>,
    delegation_id: u64,
) -> (r: Result<Delegation, OpError>)
    ensures
        match r {
            Ok(updated) => {
                &&& revoke_delegation_error(*shape, caller@, opt_view(delegation), delegation_id)
                    is None
                &&& match delegation {
                    Some(d) => updated@ == (DelegationV { is_active: false, ..d@ }),
                    None => false,
                }
            },
            Err(e) => Some(e) == revoke_delegation_error(
                *shape,
                caller@,
                opt_view(delegation),
                delegation_id,
            ),
        },
{
    match check_shape(shape, 2) {
        Ok(()) => {},
        Err(e) => {
            return Err(e);
        },
    }
    let mut d = match delegation {
        Some(d) => d,
        None => {
            return Err(OpError::Voting(VotingError::DelegationNotFound));
        },
    };
    if d.id != delegation_id {
        return Err(OpError::Voting(VotingError::DelegationNotFound));
    }
    if !key_eq(&d.delegator, caller) {
        return Err(OpError::Voting(VotingError::NotDelegator));
    }
    d.is_active = false;
    Ok(d)
}

// ---------------------------------------------------------------------------
// UpdateTokenBalance

/// The UpdateTokenBalance handler: overwrites (never accumulates) the
/// balance snapshot of one owner in one token.
pub fn process_update_token_balance(
    shape: &CallShape,
    owner: &PubKey,
    token: &PubKey,
    amount: u64,
    now: u64,
) -> (r: Result<TokenBalance, OpError>)
    ensures
        match r {
            Ok(tb) => {
                &&& shape_error(*shape, 3) is None
                &&& tb@ == (TokenBalanceV {
                    owner: owner@,
                    token: token@,
                    amount,
                    last_updated: now,
                })
            },
            Err(e) => Some(e) == shape_error(*shape, 3),
        },
{
    match check_shape(shape, 3) {
        Ok(()) => {},
        Err(e) => {
            return Err(e);
        },
    }
    Ok(TokenBalance { owner: *owner, token: *token, amount, last_updated: now })
}

} // verus!
