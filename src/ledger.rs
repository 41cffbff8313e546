use vstd::prelude::*;
use crate::address::{Namespace, address_seeds, program_address, program_bytes, record_address};
use crate::identity::Identity;
use crate::records::{
    AgentDeath, Arena, ArenaError, Bet, InitializeArena, LogDeath, LogTransaction, PlaceBet,
    Transaction, UpdateStats, MAX_ID_LEN, MAX_SERVICE_LEN, byte_len, string_len,
};

verus! {

/// Every record of every arena, each kind keyed by its natural key.
pub struct Ledger {
    pub arenas: Vec<Arena>,
    pub transactions: Vec<Transaction>,
    pub deaths: Vec<AgentDeath>,
    pub bets: Vec<Bet>,
}

/// What a ledger holds, as sequences of records.
pub ghost struct LedgerView {
    pub arenas: Seq<Arena>,
    pub transactions: Seq<Transaction>,
    pub deaths: Seq<AgentDeath>,
    pub bets: Seq<Bet>,
}

impl View for Ledger {
    type V = LedgerView;

    open spec fn view(&self) -> LedgerView {
        LedgerView {
            arenas: self.arenas@,
            transactions: self.transactions@,
            deaths: self.deaths@,
            bets: self.bets@,
        }
    }
}

pub open spec fn arena_at(v: LedgerView, id: Seq<char>, i: int) -> bool {
    0 <= i < v.arenas.len() && v.arenas[i].arena_id@ == id
}

pub open spec fn has_arena(v: LedgerView, id: Seq<char>) -> bool {
    exists|i: int| #[trigger] arena_at(v, id, i)
}

/// The position of the arena with id `id` (meaningful when it exists).
pub open spec fn arena_index(v: LedgerView, id: Seq<char>) -> int {
    choose|i: int| #[trigger] arena_at(v, id, i)
}

/// The arena with id `id` (meaningful when it exists).
pub open spec fn arena_of(v: LedgerView, id: Seq<char>) -> Arena {
    v.arenas[arena_index(v, id)]
}

pub open spec fn has_transaction(v: LedgerView, id: Seq<char>) -> bool {
    exists|i: int| 0 <= i < v.transactions.len() && #[trigger] v.transactions[i].transaction_id@ == id
}

pub open spec fn has_death(v: LedgerView, agent_id: Seq<char>) -> bool {
    exists|i: int| 0 <= i < v.deaths.len() && #[trigger] v.deaths[i].agent_id@ == agent_id
}

pub open spec fn bet_at(v: LedgerView, bettor: Identity, agent_id: Seq<char>, i: int) -> bool {
    0 <= i < v.bets.len() && v.bets[i].bettor.bytes@ == bettor.bytes@ && v.bets[i].agent_id@
        == agent_id
}

pub open spec fn has_bet(v: LedgerView, bettor: Identity, agent_id: Seq<char>) -> bool {
    exists|i: int| #[trigger] bet_at(v, bettor, agent_id, i)
}

/// Arena ids are unique, and each fits its field.
pub open spec fn arenas_keyed(arenas: Seq<Arena>) -> bool {
    &&& forall|i: int, j: int|
        0 <= i < arenas.len() && 0 <= j < arenas.len() && #[trigger] arenas[i].arena_id@
            == #[trigger] arenas[j].arena_id@ ==> i == j
    &&& forall|i: int| 0 <= i < arenas.len() ==> byte_len(#[trigger] arenas[i].arena_id@) <= MAX_ID_LEN
}

/// Each kind of record is unique under its key.
pub open spec fn keys_unique(v: LedgerView) -> bool {
    &&& arenas_keyed(v.arenas)
    &&& forall|i: int, j: int|
        0 <= i < v.transactions.len() && 0 <= j < v.transactions.len()
            && #[trigger] v.transactions[i].transaction_id@
            == #[trigger] v.transactions[j].transaction_id@ ==> i == j
    &&& forall|i: int, j: int|
        0 <= i < v.deaths.len() && 0 <= j < v.deaths.len() && #[trigger] v.deaths[i].agent_id@
            == #[trigger] v.deaths[j].agent_id@ ==> i == j
    &&& forall|i: int, j: int|
        0 <= i < v.bets.len() && 0 <= j < v.bets.len() && #[trigger] v.bets[i].bettor.bytes@
            == #[trigger] v.bets[j].bettor.bytes@ && v.bets[i].agent_id@ == v.bets[j].agent_id@
            ==> i == j
}

/// Every stored key fits its field.
pub open spec fn keys_fit(v: LedgerView) -> bool {
    &&& forall|i: int|
        0 <= i < v.transactions.len() ==> byte_len(#[trigger] v.transactions[i].transaction_id@)
            <= MAX_ID_LEN
    &&& forall|i: int|
        0 <= i < v.deaths.len() ==> byte_len(#[trigger] v.deaths[i].agent_id@) <= MAX_ID_LEN
    &&& forall|i: int| 0 <= i < v.bets.len() ==> byte_len(#[trigger] v.bets[i].agent_id@) <= MAX_ID_LEN
}

/// The ledger's invariant: records are unique under their keys, and the
/// keys fit their fields.
pub open spec fn wf(v: LedgerView) -> bool {
    keys_unique(v) && keys_fit(v)
}

/// Whether an executable outcome and the ledger after it follow a step:
/// a refused step leaves the ledger as it was.
pub open spec fn follows(
    r: Result<(), ArenaError>,
    before: LedgerView,
    after: LedgerView,
    step: Result<LedgerView, ArenaError>,
) -> bool {
    match step {
        Ok(w) => r is Ok && after == w,
        Err(e) => r == Err::<(), ArenaError>(e) && after == before,
    }
}

/// A new arena: counters at zero, started now, bound to its creator.
pub open spec fn fresh_arena(arena_id: String, ctx: InitializeArena, address: Identity) -> Arena {
    Arena {
        arena_id,
        authority: ctx.authority,
        total_transactions: 0,
        total_agents: 0,
        alive_agents: 0,
        dead_agents: 0,
        total_volume: 0,
        avg_balance: 0,
        gini_coefficient: 0,
        started_at: ctx.now,
        total_bets: 0,
        total_bet_volume: 0,
        address,
        escrow: 0,
    }
}

/// The address seeds of an arena.
pub open spec fn arena_seeds(arena_id: Seq<char>) -> Seq<Seq<u8>> {
    address_seeds(Namespace::Arena, vstd::utf8::encode_utf8(arena_id))
}

/// How `initialize_arena` answers.
pub open spec fn initialize_outcome(v: LedgerView, arena_id: Seq<char>) -> Result<(), ArenaError> {
    if byte_len(arena_id) > MAX_ID_LEN {
        Err(ArenaError::TooLong)
    } else if has_arena(v, arena_id) {
        Err(ArenaError::AlreadyExists)
    } else if program_address(arena_seeds(arena_id), program_bytes()) is None {
        Err(ArenaError::NoAddress)
    } else {
        Ok(())
    }
}

/// The ledger after a successful `initialize_arena`.
pub open spec fn initialized(
    v: LedgerView,
    w: LedgerView,
    ctx: InitializeArena,
    arena_id: String,
) -> bool {
    let address = w.arenas.last().address;
    &&& w == LedgerView { arenas: v.arenas.push(fresh_arena(arena_id, ctx, address)), ..v }
    &&& program_address(arena_seeds(arena_id@), program_bytes()) matches Some((a, _))
        && a == address.bytes@
}

/// How `log_transaction` changes the ledger, or why it refuses.
pub open spec fn log_transaction_step(
    v: LedgerView,
    ctx: LogTransaction,
    transaction_id: String,
    from_agent: String,
    to_agent: String,
    amount: u64,
    service_type: String,
) -> Result<LedgerView, ArenaError> {
    if byte_len(transaction_id@) > MAX_ID_LEN {
        Err(ArenaError::TooLong)
    } else if has_transaction(v, transaction_id@) {
        Err(ArenaError::AlreadyExists)
    } else if byte_len(from_agent@) > MAX_ID_LEN || byte_len(to_agent@) > MAX_ID_LEN || byte_len(
        service_type@,
    ) > MAX_SERVICE_LEN {
        Err(ArenaError::TooLong)
    } else if !has_arena(v, ctx.arena_id@) {
        Err(ArenaError::ArenaNotFound)
    } else {
        let i = arena_index(v, ctx.arena_id@);
        let a = v.arenas[i];
        if a.total_transactions + 1 > u64::MAX || a.total_volume + amount > u64::MAX {
            Err(ArenaError::Overflow)
        } else {
            let record = Transaction {
                transaction_id,
                from_agent,
                to_agent,
                amount,
                service_type,
                timestamp: ctx.now,
                arena: a.address,
            };
            let updated = Arena {
                total_transactions: (a.total_transactions + 1) as u64,
                total_volume: (a.total_volume + amount) as u64,
                ..a
            };
            Ok(
                LedgerView {
                    arenas: v.arenas.update(i, updated),
                    transactions: v.transactions.push(record),
                    ..v
                },
            )
        }
    }
}

/// How `log_death` changes the ledger, or why it refuses.
pub open spec fn log_death_step(
    v: LedgerView,
    ctx: LogDeath,
    agent_id: String,
    agent_name: String,
    final_balance: u64,
    services_completed: u32,
) -> Result<LedgerView, ArenaError> {
    if byte_len(agent_id@) > MAX_ID_LEN {
        Err(ArenaError::TooLong)
    } else if has_death(v, agent_id@) {
        Err(ArenaError::AlreadyExists)
    } else if byte_len(agent_name@) > MAX_ID_LEN {
        Err(ArenaError::TooLong)
    } else if !has_arena(v, ctx.arena_id@) {
        Err(ArenaError::ArenaNotFound)
    } else {
        let record = AgentDeath {
            agent_id,
            agent_name,
            final_balance,
            services_completed,
            timestamp: ctx.now,
            arena: arena_of(v, ctx.arena_id@).address,
        };
        Ok(LedgerView { deaths: v.deaths.push(record), ..v })
    }
}

/// How `update_stats` changes the ledger, or why it refuses.
pub open spec fn update_stats_step(
    v: LedgerView,
    ctx: UpdateStats,
    alive_agents: u32,
    dead_agents: u32,
    avg_balance: u64,
    gini_coefficient: u16,
) -> Result<LedgerView, ArenaError> {
    if !has_arena(v, ctx.arena_id@) {
        Err(ArenaError::ArenaNotFound)
    } else {
        let i = arena_index(v, ctx.arena_id@);
        let a = v.arenas[i];
        if ctx.authority.bytes@ != a.authority.bytes@ {
            Err(ArenaError::Unauthorized)
        } else if alive_agents + dead_agents > u32::MAX {
            Err(ArenaError::Overflow)
        } else {
            let updated = Arena {
                total_agents: (alive_agents + dead_agents) as u32,
                alive_agents,
                dead_agents,
                avg_balance,
                gini_coefficient,
                ..a
            };
            Ok(LedgerView { arenas: v.arenas.update(i, updated), ..v })
        }
    }
}

/// How `place_bet` changes the ledger, or why it refuses.
pub open spec fn place_bet_step(v: LedgerView, ctx: PlaceBet, agent_id: String, amount: u64) -> Result<
    LedgerView,
    ArenaError,
> {
    if byte_len(agent_id@) > MAX_ID_LEN {
        Err(ArenaError::TooLong)
    } else if has_bet(v, ctx.bettor, agent_id@) {
        Err(ArenaError::AlreadyExists)
    } else if !has_arena(v, ctx.arena_id@) {
        Err(ArenaError::ArenaNotFound)
    } else if amount > ctx.bettor_balance {
        Err(ArenaError::InsufficientBalance)
    } else {
        let i = arena_index(v, ctx.arena_id@);
        let a = v.arenas[i];
        if a.total_bets + 1 > u64::MAX || a.total_bet_volume + amount > u64::MAX || a.escrow
            + amount > u64::MAX {
            Err(ArenaError::Overflow)
        } else {
            let record = Bet {
                bettor: ctx.bettor,
                agent_id,
                amount,
                timestamp: ctx.now,
                arena: a.address,
                claimed: false,
            };
            let updated = Arena {
                total_bets: (a.total_bets + 1) as u64,
                total_bet_volume: (a.total_bet_volume + amount) as u64,
                escrow: (a.escrow + amount) as u64,
                ..a
            };
            Ok(LedgerView { arenas: v.arenas.update(i, updated), bets: v.bets.push(record), ..v })
        }
    }
}

/// Arenas that keep their ids stay keyed.
pub proof fn lemma_arena_ids_kept(u: Seq<Arena>, w: Seq<Arena>)
    requires
        arenas_keyed(u),
        w.len() == u.len(),
        forall|i: int| 0 <= i < u.len() ==> #[trigger] w[i].arena_id@ == u[i].arena_id@,
    ensures
        arenas_keyed(w),
{
    assert forall|i: int, j: int|
        0 <= i < w.len() && 0 <= j < w.len() && #[trigger] w[i].arena_id@ == #[trigger] w[j].arena_id@
        implies i == j by {
        assert(w[i].arena_id@ == u[i].arena_id@);
        assert(w[j].arena_id@ == u[j].arena_id@);
    }
    assert forall|i: int| 0 <= i < w.len() implies byte_len(#[trigger] w[i].arena_id@) <= MAX_ID_LEN by {
        assert(w[i].arena_id@ == u[i].arena_id@);
    }
}

/// With unique ids, the arena found under an id is the one at `arena_index`.
pub proof fn lemma_arena_index(v: LedgerView, id: Seq<char>, i: int)
    requires
        keys_unique(v),
        arena_at(v, id, i),
    ensures
        has_arena(v, id),
        arena_index(v, id) == i,
{
    let j = arena_index(v, id);
    assert(arena_at(v, id, j));
    assert(v.arenas[i].arena_id@ == v.arenas[j].arena_id@);
}

impl Ledger {
    /// An empty ledger.
    pub fn new() -> (r: Ledger)
        ensures
            r@.arenas.len() == 0,
            r@.transactions.len() == 0,
            r@.deaths.len() == 0,
            r@.bets.len() == 0,
            wf(r@),
    {
        Ledger { arenas: Vec::new(), transactions: Vec::new(), deaths: Vec::new(), bets: Vec::new() }
    }

    /// The position of the arena with id `arena_id`, if any.
    pub fn find_arena(&self, arena_id: &String) -> (r: Option<usize>)
        ensures
            match r {
                Some(i) => arena_at(self@, arena_id@, i as int),
                None => !has_arena(self@, arena_id@),
            },
    {
        let mut i: usize = 0;
        while i < self.arenas.len()
            invariant
                0 <= i <= self.arenas@.len(),
                forall|j: int| 0 <= j < i ==> !(#[trigger] arena_at(self@, arena_id@, j)),
            decreases self.arenas@.len() - i,
        {
            if self.arenas[i].arena_id == *arena_id {
                return Some(i);
            }
            i = i + 1;
        }
        None
    }

    /// Whether a transaction with id `id` is recorded.
    pub fn contains_transaction(&self, id: &String) -> (r: bool)
        ensures
            r == has_transaction(self@, id@),
    {
        let mut i: usize = 0;
        while i < self.transactions.len()
            invariant
                0 <= i <= self.transactions@.len(),
                forall|j: int|
                    0 <= j < i ==> #[trigger] self.transactions@[j].transaction_id@ != id@,
            decreases self.transactions@.len() - i,
        {
            if self.transactions[i].transaction_id == *id {
                assert(self@.transactions[i as int].transaction_id@ == id@);
                return true;
            }
            i = i + 1;
        }
        false
    }

    /// Whether the death of agent `agent_id` is recorded.
    pub fn contains_death(&self, agent_id: &String) -> (r: bool)
        ensures
            r == has_death(self@, agent_id@),
    {
        let mut i: usize = 0;
        while i < self.deaths.len()
            invariant
                0 <= i <= self.deaths@.len(),
                forall|j: int| 0 <= j < i ==> #[trigger] self.deaths@[j].agent_id@ != agent_id@,
            decreases self.deaths@.len() - i,
        {
            if self.deaths[i].agent_id == *agent_id {
                assert(self@.deaths[i as int].agent_id@ == agent_id@);
                return true;
            }
            i = i + 1;
        }
        false
    }

    /// Whether `bettor` holds a bet on agent `agent_id`.
    pub fn contains_bet(&self, bettor: &Identity, agent_id: &String) -> (r: bool)
        ensures
            r == has_bet(self@, *bettor, agent_id@),
    {
        let mut i: usize = 0;
        while i < self.bets.len()
            invariant
                0 <= i <= self.bets@.len(),
                forall|j: int| 0 <= j < i ==> !(#[trigger] bet_at(self@, *bettor, agent_id@, j)),
            decreases self.bets@.len() - i,
        {
            if self.bets[i].bettor.same_as(bettor) && self.bets[i].agent_id == *agent_id {
                assert(bet_at(self@, *bettor, agent_id@, i as int));
                return true;
            }
            i = i + 1;
        }
        false
    }
}

/// Creates the arena `arena_id`, bound to the caller, with every counter at zero.
pub fn initialize_arena(ledger: &mut Ledger, ctx: &InitializeArena, arena_id: String) -> (r: Result<
    (),
    ArenaError,
>)
    requires
        wf(old(ledger)@),
    ensures
        wf(final(ledger)@),
        r == initialize_outcome(old(ledger)@, arena_id@),
        r is Ok ==> initialized(old(ledger)@, final(ledger)@, *ctx, arena_id),
        r is Err ==> final(ledger)@ == old(ledger)@,
{
    if string_len(&arena_id) > MAX_ID_LEN {
        return Err(ArenaError::TooLong);
    }
    if ledger.find_arena(&arena_id).is_some() {
        return Err(ArenaError::AlreadyExists);
    }
    let address = match record_address(Namespace::Arena, arena_id.as_str().as_bytes()) {
        None => return Err(ArenaError::NoAddress),
        Some((a, _)) => a,
    };
    let arena = Arena {
        arena_id,
        authority: ctx.authority,
        total_transactions: 0,
        total_agents: 0,
        alive_agents: 0,
        dead_agents: 0,
        total_volume: 0,
        avg_balance: 0,
        gini_coefficient: 0,
        started_at: ctx.now,
        total_bets: 0,
        total_bet_volume: 0,
        address,
        escrow: 0,
    };
    ledger.arenas.push(arena);
    proof {
        let v = final(ledger)@;
        assert forall|i: int, j: int|
            0 <= i < v.arenas.len() && 0 <= j < v.arenas.len() && #[trigger] v.arenas[i].arena_id@
                == #[trigger] v.arenas[j].arena_id@ implies i == j by {
            if i != j && (i == v.arenas.len() - 1 || j == v.arenas.len() - 1) {
                let k = if i == v.arenas.len() - 1 { j } else { i };
                assert(arena_at(old(ledger)@, arena_id@, k));
            }
        }
        assert(final(ledger)@ =~= LedgerView {
            arenas: old(ledger)@.arenas.push(fresh_arena(arena_id, *ctx, address)),
            ..old(ledger)@
        });
    }
    Ok(())
}

/// Records a payment between two agents and adds it to its arena's totals.
pub fn log_transaction(
    ledger: &mut Ledger,
    ctx: &LogTransaction,
    transaction_id: String,
    from_agent: String,
    to_agent: String,
    amount: u64,
    service_type: String,
) -> (r: Result<(), ArenaError>)
    requires
        wf(old(ledger)@),
    ensures
        wf(final(ledger)@),
        follows(
            r,
            old(ledger)@,
            final(ledger)@,
            log_transaction_step(
                old(ledger)@,
                *ctx,
                transaction_id,
                from_agent,
                to_agent,
                amount,
                service_type,
            ),
        ),
{
    if string_len(&transaction_id) > MAX_ID_LEN {
        return Err(ArenaError::TooLong);
    }
    if ledger.contains_transaction(&transaction_id) {
        return Err(ArenaError::AlreadyExists);
    }
    if string_len(&from_agent) > MAX_ID_LEN || string_len(&to_agent) > MAX_ID_LEN || string_len(
        &service_type,
    ) > MAX_SERVICE_LEN {
        return Err(ArenaError::TooLong);
    }
    let idx = match ledger.find_arena(&ctx.arena_id) {
        None => return Err(ArenaError::ArenaNotFound),
        Some(i) => i,
    };
    proof {
        lemma_arena_index(ledger@, ctx.arena_id@, idx as int);
    }
    let mut arena = ledger.arenas[idx].copy();
    let total_transactions = match arena.total_transactions.checked_add(1) {
        None => return Err(ArenaError::Overflow),
        Some(t) => t,
    };
    let total_volume = match arena.total_volume.checked_add(amount) {
        None => return Err(ArenaError::Overflow),
        Some(t) => t,
    };
    arena.total_transactions = total_transactions;
    arena.total_volume = total_volume;
    let address = arena.address;
    ledger.arenas.set(idx, arena);
    let ghost tid = transaction_id;
    ledger.transactions.push(
        Transaction {
            transaction_id,
            from_agent,
            to_agent,
            amount,
            service_type,
            timestamp: ctx.now,
            arena: address,
        },
    );
    proof {
        let v = final(ledger)@;
        let u = old(ledger)@;
        lemma_arena_ids_kept(u.arenas, v.arenas);
        assert forall|i: int, j: int|
            0 <= i < v.transactions.len() && 0 <= j < v.transactions.len()
                && #[trigger] v.transactions[i].transaction_id@
                == #[trigger] v.transactions[j].transaction_id@ implies i == j by {
            if i != j && (i == v.transactions.len() - 1 || j == v.transactions.len() - 1) {
                let k = if i == v.transactions.len() - 1 { j } else { i };
                assert(u.transactions[k].transaction_id@ == tid@);
            }
        }
    }
    Ok(())
}

/// Records the death of an agent. The arena's counters are left as they are.
pub fn log_death(
    ledger: &mut Ledger,
    ctx: &LogDeath,
    agent_id: String,
    agent_name: String,
    final_balance: u64,
    services_completed: u32,
) -> (r: Result<(), ArenaError>)
    requires
        wf(old(ledger)@),
    ensures
        wf(final(ledger)@),
        follows(
            r,
            old(ledger)@,
            final(ledger)@,
            log_death_step(
                old(ledger)@,
                *ctx,
                agent_id,
                agent_name,
                final_balance,
                services_completed,
            ),
        ),
{
    if string_len(&agent_id) > MAX_ID_LEN {
        return Err(ArenaError::TooLong);
    }
    if ledger.contains_death(&agent_id) {
        return Err(ArenaError::AlreadyExists);
    }
    if string_len(&agent_name) > MAX_ID_LEN {
        return Err(ArenaError::TooLong);
    }
    let idx = match ledger.find_arena(&ctx.arena_id) {
        None => return Err(ArenaError::ArenaNotFound),
        Some(i) => i,
    };
    proof {
        lemma_arena_index(ledger@, ctx.arena_id@, idx as int);
    }
    let address = ledger.arenas[idx].address;
    let ghost aid = agent_id;
    ledger.deaths.push(
        AgentDeath {
            agent_id,
            agent_name,
            final_balance,
            services_completed,
            timestamp: ctx.now,
            arena: address,
        },
    );
    proof {
        let v = final(ledger)@;
        let u = old(ledger)@;
        assert forall|i: int, j: int|
            0 <= i < v.deaths.len() && 0 <= j < v.deaths.len() && #[trigger] v.deaths[i].agent_id@
                == #[trigger] v.deaths[j].agent_id@ implies i == j by {
            if i != j && (i == v.deaths.len() - 1 || j == v.deaths.len() - 1) {
                let k = if i == v.deaths.len() - 1 { j } else { i };
                assert(u.deaths[k].agent_id@ == aid@);
            }
        }
    }
    Ok(())
}

/// Overwrites an arena's statistics; only its authority may.
pub fn update_stats(
    ledger: &mut Ledger,
    ctx: &UpdateStats,
    alive_agents: u32,
    dead_agents: u32,
    avg_balance: u64,
    gini_coefficient: u16,
) -> (r: Result<(), ArenaError>)
    requires
        wf(old(ledger)@),
    ensures
        wf(final(ledger)@),
        follows(
            r,
            old(ledger)@,
            final(ledger)@,
            update_stats_step(
                old(ledger)@,
                *ctx,
                alive_agents,
                dead_agents,
                avg_balance,
                gini_coefficient,
            ),
        ),
{
    let idx = match ledger.find_arena(&ctx.arena_id) {
        None => return Err(ArenaError::ArenaNotFound),
        Some(i) => i,
    };
    proof {
        lemma_arena_index(ledger@, ctx.arena_id@, idx as int);
    }
    let mut arena = ledger.arenas[idx].copy();
    if !arena.authority.same_as(&ctx.authority) {
        return Err(ArenaError::Unauthorized);
    }
    let total_agents = match alive_agents.checked_add(dead_agents) {
        None => return Err(ArenaError::Overflow),
        Some(t) => t,
    };
    arena.total_agents = total_agents;
    arena.alive_agents = alive_agents;
    arena.dead_agents = dead_agents;
    arena.avg_balance = avg_balance;
    arena.gini_coefficient = gini_coefficient;
    ledger.arenas.set(idx, arena);
    proof {
        let v = final(ledger)@;
        let u = old(ledger)@;
        lemma_arena_ids_kept(u.arenas, v.arenas);
    }
    Ok(())
}

/// Takes `amount` from the bettor into the arena's custody and records the bet.
pub fn place_bet(ledger: &mut Ledger, ctx: &mut PlaceBet, agent_id: String, amount: u64) -> (r:
    Result<(), ArenaError>)
    requires
        wf(old(ledger)@),
    ensures
        wf(final(ledger)@),
        follows(r, old(ledger)@, final(ledger)@, place_bet_step(old(ledger)@, *old(ctx), agent_id, amount)),
        r is Ok ==> *final(ctx) == (PlaceBet {
            bettor_balance: (old(ctx).bettor_balance - amount) as u64,
            ..*old(ctx)
        }),
        r is Err ==> *final(ctx) == *old(ctx),
{
    if string_len(&agent_id) > MAX_ID_LEN {
        return Err(ArenaError::TooLong);
    }
    if ledger.contains_bet(&ctx.bettor, &agent_id) {
        return Err(ArenaError::AlreadyExists);
    }
    let idx = match ledger.find_arena(&ctx.arena_id) {
        None => return Err(ArenaError::ArenaNotFound),
        Some(i) => i,
    };
    proof {
        lemma_arena_index(ledger@, ctx.arena_id@, idx as int);
    }
    if amount > ctx.bettor_balance {
        return Err(ArenaError::InsufficientBalance);
    }
    let mut arena = ledger.arenas[idx].copy();
    let total_bets = match arena.total_bets.checked_add(1) {
        None => return Err(ArenaError::Overflow),
        Some(t) => t,
    };
    let total_bet_volume = match arena.total_bet_volume.checked_add(amount) {
        None => return Err(ArenaError::Overflow),
        Some(t) => t,
    };
    let escrow = match arena.escrow.checked_add(amount) {
        None => return Err(ArenaError::Overflow),
        Some(t) => t,
    };
    arena.total_bets = total_bets;
    arena.total_bet_volume = total_bet_volume;
    arena.escrow = escrow;
    let address = arena.address;
    ledger.arenas.set(idx, arena);
    ctx.bettor_balance = ctx.bettor_balance - amount;
    let ghost aid = agent_id;
    ledger.bets.push(
        Bet { bettor: ctx.bettor, agent_id, amount, timestamp: ctx.now, arena: address, claimed: false },
    );
    proof {
        let v = final(ledger)@;
        let u = old(ledger)@;
        lemma_arena_ids_kept(u.arenas, v.arenas);
        assert forall|i: int, j: int|
            0 <= i < v.bets.len() && 0 <= j < v.bets.len() && #[trigger] v.bets[i].bettor.bytes@
                == #[trigger] v.bets[j].bettor.bytes@ && v.bets[i].agent_id@ == v.bets[j].agent_id@
                implies i == j by {
            if i != j && (i == v.bets.len() - 1 || j == v.bets.len() - 1) {
                let k = if i == v.bets.len() - 1 { j } else { i };
                assert(bet_at(u, old(ctx).bettor, aid@, k));
            }
        }
    }
    Ok(())
}

} // verus!
