use vstd::prelude::*;
use crate::identity::Identity;

verus! {

/// Longest arena id, transaction id, agent id, agent name or agent reference, in bytes.
pub const MAX_ID_LEN: usize = 50;

/// Longest service type, in bytes.
pub const MAX_SERVICE_LEN: usize = 20;

/// The length of a string in UTF-8 bytes.
pub open spec fn byte_len(s: Seq<char>) -> nat {
    vstd::utf8::encode_utf8(s).len()
}

/// The byte length of a string, as stored.
pub fn string_len(s: &String) -> (r: usize)
    ensures
        r == byte_len(s@),
{
    s.as_str().as_bytes().len()
}

/// Why an operation was refused. A refused operation changes nothing.
#[derive(Clone, Copy, Debug, PartialEq, Eq, Structural)]
pub enum ArenaError {
    /// A record already exists under the key.
    AlreadyExists,
    /// The caller is not the arena's authority.
    Unauthorized,
    /// The bettor cannot fund the bet.
    InsufficientBalance,
    /// A counter or balance would leave its range.
    Overflow,
    /// A string is longer than its field allows.
    TooLong,
    /// No arena exists under the id.
    ArenaNotFound,
    /// No program address can be derived for the record.
    NoAddress,
}

/// The aggregate record of one competition.
#[derive(Debug)]
pub struct Arena {
    pub arena_id: String,
    pub authority: Identity,
    pub total_transactions: u64,
    pub total_agents: u32,
    pub alive_agents: u32,
    pub dead_agents: u32,
    pub total_volume: u64,
    pub avg_balance: u64,
    pub gini_coefficient: u16,
    pub started_at: i64,
    pub total_bets: u64,
    pub total_bet_volume: u64,
    /// The arena's derived address, to which the other records point.
    pub address: Identity,
    /// The value held in custody for bets.
    pub escrow: u64,
}

/// A payment between two agents.
#[derive(Debug)]
pub struct Transaction {
    pub transaction_id: String,
    pub from_agent: String,
    pub to_agent: String,
    pub amount: u64,
    pub service_type: String,
    pub timestamp: i64,
    pub arena: Identity,
}

/// The death of an agent.
#[derive(Debug)]
pub struct AgentDeath {
    pub agent_id: String,
    pub agent_name: String,
    pub final_balance: u64,
    pub services_completed: u32,
    pub timestamp: i64,
    pub arena: Identity,
}

/// A wager of a bettor on an agent, held in escrow.
#[derive(Debug)]
pub struct Bet {
    pub bettor: Identity,
    pub agent_id: String,
    pub amount: u64,
    pub timestamp: i64,
    pub arena: Identity,
    pub claimed: bool,
}

/// The caller of `initialize_arena` and the host time of the call.
#[derive(Clone, Copy, Debug)]
pub struct InitializeArena {
    pub authority: Identity,
    pub now: i64,
}

/// The arena that `log_transaction` updates, its signer and the host time.
#[derive(Debug)]
pub struct LogTransaction {
    pub arena_id: String,
    pub authority: Identity,
    pub now: i64,
}

/// The arena that `log_death` refers to, its signer and the host time.
#[derive(Debug)]
pub struct LogDeath {
    pub arena_id: String,
    pub authority: Identity,
    pub now: i64,
}

/// The arena that `update_stats` overwrites, and the caller.
#[derive(Debug)]
pub struct UpdateStats {
    pub arena_id: String,
    pub authority: Identity,
}

/// The arena that `place_bet` funds, the bettor, the bettor's available
/// balance and the host time.
#[derive(Debug)]
pub struct PlaceBet {
    pub arena_id: String,
    pub bettor: Identity,
    pub bettor_balance: u64,
    pub now: i64,
}

impl Arena {
    /// A field-by-field copy.
    pub fn copy(&self) -> (r: Arena)
        ensures
            r == *self,
    {
        Arena {
            arena_id: self.arena_id.clone(),
            authority: self.authority,
            total_transactions: self.total_transactions,
            total_agents: self.total_agents,
            alive_agents: self.alive_agents,
            dead_agents: self.dead_agents,
            total_volume: self.total_volume,
            avg_balance: self.avg_balance,
            gini_coefficient: self.gini_coefficient,
            started_at: self.started_at,
            total_bets: self.total_bets,
            total_bet_volume: self.total_bet_volume,
            address: self.address,
            escrow: self.escrow,
        }
    }
}

} // verus!
