//! The persistent records of the ledger and their mathematical views.
//!
//! Titles, descriptions, options and cryptographic payloads are byte strings:
//! every length bound of the data model is a byte count.  Each record type
//! carries a `View` into plain mathematical values (`Seq`, integers, `bool`),
//! which is what every contract in this crate speaks of.

use vstd::prelude::*;

use crate::keys::PubKey;

verus! {

/// Longest accepted poll title, in bytes.
pub const MAX_TITLE_LEN: usize = 100;

/// Longest accepted poll description, in bytes.
pub const MAX_DESCRIPTION_LEN: usize = 1000;

/// Most options a poll can offer.
pub const MAX_OPTIONS: usize = 20;

/// Longest accepted option label, in bytes.
pub const MAX_OPTION_LEN: usize = 100;

/// Largest accepted early-voter bonus, in percent.
pub const MAX_EARLY_VOTER_BONUS: u8 = 100;

/// Bytes reserved for a fresh voter bitmap: one bit per hash slot.
pub const VOTER_BITMAP_BYTES: usize = 1024;

/// Number of hash slots a voter key can map to.
pub const VOTER_SLOTS: u64 = 8192;

// ---------------------------------------------------------------------------
// Poll

/// The parameterized question under vote, its options, and its time window.
#[derive(Debug, Clone, PartialEq, Eq)]
pub struct Poll {
    pub id: u64,
    pub creator: PubKey,
    pub title: Vec<u8>,
    pub description: Vec<u8>,
    pub options: Vec<Vec<u8>>,
    pub start_time: u64,
    pub end_time: u64,
    pub is_private: bool,
    pub allow_revote: bool,
    pub is_active: bool,
    pub is_weighted: bool,
    pub allow_delegation: bool,
    pub is_encrypted: bool,
    pub decryption_key: Option<Vec<u8>>,
    pub weight_token: Option<PubKey>,
    pub early_voter_bonus: u8,
}

/// Mathematical view of a `Poll`.
pub ghost struct PollV {
    pub id: u64,
    pub creator: Seq<u8>,
    pub title: Seq<u8>,
    pub description: Seq<u8>,
    pub options: Seq<Seq<u8>>,
    pub start_time: u64,
    pub end_time: u64,
    pub is_private: bool,
    pub allow_revote: bool,
    pub is_active: bool,
    pub is_weighted: bool,
    pub allow_delegation: bool,
    pub is_encrypted: bool,
    pub decryption_key: Option<Seq<u8>>,
    pub weight_token: Option<Seq<u8>>,
    pub early_voter_bonus: u8,
}

/// View of an optional byte string.
pub open spec fn opt_bytes_view(o: Option<Vec<u8>>) -> Option<Seq<u8>> {
    match o {
        Some(v) => Some(v@),
        None => None,
    }
}

/// View of an optional key.
pub open spec fn opt_key_view(o: Option<PubKey>) -> Option<Seq<u8>> {
    match o {
        Some(k) => Some(k@),
        None => None,
    }
}

impl View for Poll {
    type V = PollV;

    open spec fn view(&self) -> PollV {
        PollV {
            id: self.id,
            creator: self.creator@,
            title: self.title@,
            description: self.description@,
            options: self.options@.map_values(|o: Vec<u8>| o@),
            start_time: self.start_time,
            end_time: self.end_time,
            is_private: self.is_private,
            allow_revote: self.allow_revote,
            is_active: self.is_active,
            is_weighted: self.is_weighted,
            allow_delegation: self.allow_delegation,
            is_encrypted: self.is_encrypted,
            decryption_key: opt_bytes_view(self.decryption_key),
            weight_token: opt_key_view(self.weight_token),
            early_voter_bonus: self.early_voter_bonus,
        }
    }
}

/// The parameter bounds a poll must satisfy when it is created: field lengths
/// and counts in range, a forward time window, a token behind weighted
/// voting, and a bonus of at most 100 percent.
pub open spec fn poll_params_wf(p: PollV) -> bool {
    &&& 1 <= p.title.len() <= MAX_TITLE_LEN
    &&& p.description.len() <= MAX_DESCRIPTION_LEN
    &&& 1 <= p.options.len() <= MAX_OPTIONS
    &&& forall|i: int|
        0 <= i < p.options.len() ==> 1 <= #[trigger] p.options[i].len() <= MAX_OPTION_LEN
    &&& p.start_time < p.end_time
    &&& p.is_weighted ==> p.weight_token is Some
    &&& p.early_voter_bonus <= MAX_EARLY_VOTER_BONUS
}

// ---------------------------------------------------------------------------
// Vote

/// One voter's recorded choice, weight, and optional privacy payload.
#[derive(Debug, Clone, PartialEq, Eq)]
pub struct Vote {
    pub poll_id: u64,
    pub voter: PubKey,
    pub option_index: u8,
    pub timestamp: u64,
    pub weight: u64,
    pub delegated_to: Option<PubKey>,
    pub encrypted_data: Option<Vec<u8>>,
    pub zk_proof: Option<Vec<u8>>,
    pub nonce: Option<Vec<u8>>,
}

/// Mathematical view of a `Vote`.
pub ghost struct VoteV {
    pub poll_id: u64,
    pub voter: Seq<u8>,
    pub option_index: u8,
    pub timestamp: u64,
    pub weight: u64,
    pub delegated_to: Option<Seq<u8>>,
    pub encrypted_data: Option<Seq<u8>>,
    pub zk_proof: Option<Seq<u8>>,
    pub nonce: Option<Seq<u8>>,
}

impl View for Vote {
    type V = VoteV;

    open spec fn view(&self) -> VoteV {
        VoteV {
            poll_id: self.poll_id,
            voter: self.voter@,
            option_index: self.option_index,
            timestamp: self.timestamp,
            weight: self.weight,
            delegated_to: opt_key_view(self.delegated_to),
            encrypted_data: opt_bytes_view(self.encrypted_data),
            zk_proof: opt_bytes_view(self.zk_proof),
            nonce: opt_bytes_view(self.nonce),
        }
    }
}

// ---------------------------------------------------------------------------
// VoteCount

/// The aggregated per-option counters and derived totals for a poll.
#[derive(Debug, Clone, PartialEq, Eq)]
pub struct VoteCount {
    pub poll_id: u64,
    pub counts: Vec<u64>,
    pub total_voters: u64,
    pub last_updated: u64,
    pub is_finalized: bool,
}

/// Mathematical view of a `VoteCount`.
pub ghost struct VoteCountV {
    pub poll_id: u64,
    pub counts: Seq<u64>,
    pub total_voters: u64,
    pub last_updated: u64,
    pub is_finalized: bool,
}

impl View for VoteCount {
    type V = VoteCountV;

    open spec fn view(&self) -> VoteCountV {
        VoteCountV {
            poll_id: self.poll_id,
            counts: self.counts@,
            total_voters: self.total_voters,
            last_updated: self.last_updated,
            is_finalized: self.is_finalized,
        }
    }
}

impl VoteCount {
    /// A fresh tally for a poll with `n_options` options: every counter
    /// zero, no voters, not finalized.
    pub fn new_zeroed(poll_id: u64, n_options: usize, now: u64) -> (vc: VoteCount)
        ensures
            vc@ == (VoteCountV {
                poll_id,
                counts: Seq::new(n_options as nat, |i: int| 0u64),
                total_voters: 0,
                last_updated: now,
                is_finalized: false,
            }),
    {
        let mut counts: Vec<u64> = Vec::new();
        let mut i: usize = 0;
        while i < n_options
            invariant
                i <= n_options,
                counts@ =~= Seq::new(i as nat, |j: int| 0u64),
            decreases n_options - i,
        {
            counts.push(0);
            proof {
                assert(counts@ =~= Seq::new((i + 1) as nat, |j: int| 0u64));
            }
            i += 1;
        }
        VoteCount { poll_id, counts, total_voters: 0, last_updated: now, is_finalized: false }
    }
}

// ---------------------------------------------------------------------------
// VoterRegistry

/// The dedup membership structure of a poll: a hash bitmap for fast negative
/// lookups, and the authoritative list of voter keys.
#[derive(Debug, Clone, PartialEq, Eq)]
pub struct VoterRegistry {
    pub poll_id: u64,
    pub voter_bitmap: Vec<u8>,
    pub voters: Vec<PubKey>,
}

/// Mathematical view of a `VoterRegistry`.
pub ghost struct VoterRegistryV {
    pub poll_id: u64,
    pub voter_bitmap: Seq<u8>,
    pub voters: Seq<Seq<u8>>,
}

impl View for VoterRegistry {
    type V = VoterRegistryV;

    open spec fn view(&self) -> VoterRegistryV {
        VoterRegistryV {
            poll_id: self.poll_id,
            voter_bitmap: self.voter_bitmap@,
            voters: self.voters@.map_values(|k: PubKey| k@),
        }
    }
}

impl VoterRegistry {
    /// A fresh registry: a zeroed bitmap sized for every hash slot, and no
    /// voters.
    pub fn new_empty(poll_id: u64) -> (r: VoterRegistry)
        ensures
            r@ == (VoterRegistryV {
                poll_id,
                voter_bitmap: Seq::new(VOTER_BITMAP_BYTES as nat, |i: int| 0u8),
                voters: Seq::<Seq<u8>>::empty(),
            }),
    {
        let mut bitmap: Vec<u8> = Vec::new();
        let mut i: usize = 0;
        while i < VOTER_BITMAP_BYTES
            invariant
                i <= VOTER_BITMAP_BYTES,
                bitmap@ =~= Seq::new(i as nat, |j: int| 0u8),
            decreases VOTER_BITMAP_BYTES - i,
        {
            bitmap.push(0);
            proof {
                assert(bitmap@ =~= Seq::new((i + 1) as nat, |j: int| 0u8));
            }
            i += 1;
        }
        let r = VoterRegistry { poll_id, voter_bitmap: bitmap, voters: Vec::new() };
        proof {
            assert(r@.voters =~= Seq::<Seq<u8>>::empty());
        }
        r
    }
}

// ---------------------------------------------------------------------------
// Delegation

/// A grant allowing one key's voting power to be exercised by another key.
#[derive(Debug, Clone, PartialEq, Eq)]
pub struct Delegation {
    pub id: u64,
    pub delegator: PubKey,
    pub delegate: PubKey,
    pub poll_id: Option<u64>,
    pub expiration: Option<u64>,
    pub is_active: bool,
}

/// Mathematical view of a `Delegation`.
pub ghost struct DelegationV {
    pub id: u64,
    pub delegator: Seq<u8>,
    pub delegate: Seq<u8>,
    pub poll_id: Option<u64>,
    pub expiration: Option<u64>,
    pub is_active: bool,
}

impl View for Delegation {
    type V = DelegationV;

    open spec fn view(&self) -> DelegationV {
        DelegationV {
            id: self.id,
            delegator: self.delegator@,
            delegate: self.delegate@,
            poll_id: self.poll_id,
            expiration: self.expiration,
            is_active: self.is_active,
        }
    }
}

// ---------------------------------------------------------------------------
// TokenBalance

/// A caller-supplied snapshot of one owner's balance in one token.
#[derive(Debug, Clone, PartialEq, Eq)]
pub struct TokenBalance {
    pub owner: PubKey,
    pub token: PubKey,
    pub amount: u64,
    pub last_updated: u64,
}

/// Mathematical view of a `TokenBalance`.
pub ghost struct TokenBalanceV {
    pub owner: Seq<u8>,
    pub token: Seq<u8>,
    pub amount: u64,
    pub last_updated: u64,
}

impl View for TokenBalance {
    type V = TokenBalanceV;

    open spec fn view(&self) -> TokenBalanceV {
        TokenBalanceV {
            owner: self.owner@,
            token: self.token@,
            amount: self.amount,
            last_updated: self.last_updated,
        }
    }
}

} // verus!
