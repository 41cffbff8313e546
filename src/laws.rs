use vstd::prelude::*;
use crate::ledger::{
    LedgerView, arena_at, arena_index, arena_of, bet_at, fresh_arena, has_arena, has_bet, has_death,
    has_transaction, initialize_outcome, initialized, keys_unique, lemma_arena_ids_kept,
    log_death_step, log_transaction_step, place_bet_step, update_stats_step, wf,
};
use crate::records::{
    ArenaError, InitializeArena, LogDeath, LogTransaction, PlaceBet, UpdateStats, MAX_ID_LEN,
    MAX_SERVICE_LEN, byte_len,
};

verus! {

/// A second `initialize_arena` under the same id is refused with
/// `AlreadyExists`, and the arena that the first one made has every counter
/// at zero.
pub proof fn lemma_initialize_twice(
    v: LedgerView,
    w: LedgerView,
    ctx: InitializeArena,
    arena_id: String,
)
    requires
        keys_unique(v),
        initialize_outcome(v, arena_id@) is Ok,
        initialized(v, w, ctx, arena_id),
    ensures
        initialize_outcome(w, arena_id@) == Err::<(), ArenaError>(ArenaError::AlreadyExists),
        arena_of(w, arena_id@) == fresh_arena(arena_id, ctx, w.arenas.last().address),
        arena_of(w, arena_id@).total_transactions == 0,
        arena_of(w, arena_id@).total_volume == 0,
        arena_of(w, arena_id@).total_agents == 0,
        arena_of(w, arena_id@).alive_agents == 0,
        arena_of(w, arena_id@).dead_agents == 0,
        arena_of(w, arena_id@).avg_balance == 0,
        arena_of(w, arena_id@).gini_coefficient == 0,
        arena_of(w, arena_id@).total_bets == 0,
        arena_of(w, arena_id@).total_bet_volume == 0,
{
    let last = w.arenas.len() - 1;
    assert(arena_at(w, arena_id@, last));
    let j = arena_index(w, arena_id@);
    assert(arena_at(w, arena_id@, j));
    if j != last {
        assert(arena_at(v, arena_id@, j));
    }
}

/// `initialize_arena` under the id of an arena that exists is refused with
/// `AlreadyExists`.
pub proof fn lemma_initialize_existing(v: LedgerView, arena_id: String)
    requires
        wf(v),
        has_arena(v, arena_id@),
    ensures
        initialize_outcome(v, arena_id@) == Err::<(), ArenaError>(ArenaError::AlreadyExists),
{
    let i = choose|i: int| #[trigger] arena_at(v, arena_id@, i);
    assert(byte_len(v.arenas[i].arena_id@) <= MAX_ID_LEN);
}

/// Arguments of one `log_transaction` call: id, payer, payee, amount, service.
pub open spec fn tx_id(t: (String, String, String, u64, String)) -> Seq<char> {
    t.0@
}

/// Whether every string of a call fits its field.
pub open spec fn tx_fits(t: (String, String, String, u64, String)) -> bool {
    &&& byte_len(t.0@) <= MAX_ID_LEN
    &&& byte_len(t.1@) <= MAX_ID_LEN
    &&& byte_len(t.2@) <= MAX_ID_LEN
    &&& byte_len(t.4@) <= MAX_SERVICE_LEN
}

/// The ledger after a run of `log_transaction` calls on one arena, or the
/// first refusal.
pub open spec fn log_all(
    v: LedgerView,
    ctx: LogTransaction,
    txs: Seq<(String, String, String, u64, String)>,
) -> Result<LedgerView, ArenaError>
    decreases txs.len(),
{
    if txs.len() == 0 {
        Ok(v)
    } else {
        let t = txs[0];
        match log_transaction_step(v, ctx, t.0, t.1, t.2, t.3, t.4) {
            Ok(w) => log_all(w, ctx, txs.drop_first()),
            Err(e) => Err(e),
        }
    }
}

/// The sum of the amounts of a run of calls.
pub open spec fn total_amount(txs: Seq<(String, String, String, u64, String)>) -> int
    decreases txs.len(),
{
    if txs.len() == 0 {
        0
    } else {
        txs[0].3 + total_amount(txs.drop_first())
    }
}

/// One accepted `log_transaction`: the arena stays where it was, its two
/// counters grow, and the keys stay unique.
proof fn lemma_log_one(v: LedgerView, ctx: LogTransaction, t: (String, String, String, u64, String))
    requires
        wf(v),
        has_arena(v, ctx.arena_id@),
        tx_fits(t),
        !has_transaction(v, t.0@),
        arena_of(v, ctx.arena_id@).total_transactions + 1 <= u64::MAX,
        arena_of(v, ctx.arena_id@).total_volume + t.3 <= u64::MAX,
    ensures
        log_transaction_step(v, ctx, t.0, t.1, t.2, t.3, t.4) matches Ok(w) && {
            &&& wf(w)
            &&& has_arena(w, ctx.arena_id@)
            &&& arena_of(w, ctx.arena_id@).total_transactions == arena_of(
                v,
                ctx.arena_id@,
            ).total_transactions + 1
            &&& arena_of(w, ctx.arena_id@).total_volume == arena_of(v, ctx.arena_id@).total_volume
                + t.3
            &&& w.transactions.len() == v.transactions.len() + 1
            &&& arena_index(w, ctx.arena_id@) == arena_index(v, ctx.arena_id@)
            &&& forall|id: Seq<char>|
                #[trigger] has_transaction(w, id) ==> has_transaction(v, id) || id == t.0@
        },
{
    let i = arena_index(v, ctx.arena_id@);
    assert(arena_at(v, ctx.arena_id@, i));
    let w = log_transaction_step(v, ctx, t.0, t.1, t.2, t.3, t.4)->Ok_0;
    lemma_arena_ids_kept(v.arenas, w.arenas);
    assert forall|a: int, b: int|
        0 <= a < w.transactions.len() && 0 <= b < w.transactions.len()
            && #[trigger] w.transactions[a].transaction_id@
            == #[trigger] w.transactions[b].transaction_id@ implies a == b by {
        if a != b && (a == w.transactions.len() - 1 || b == w.transactions.len() - 1) {
            let k = if a == w.transactions.len() - 1 { b } else { a };
            assert(v.transactions[k].transaction_id@ == t.0@);
        }
    }
    assert(arena_at(w, ctx.arena_id@, i));
    let j = arena_index(w, ctx.arena_id@);
    assert(arena_at(w, ctx.arena_id@, j));
    assert(w.arenas[i].arena_id@ == w.arenas[j].arena_id@);
    assert forall|id: Seq<char>| #[trigger] has_transaction(w, id) implies has_transaction(v, id)
        || id == t.0@ by {
        let k = choose|k: int|
            0 <= k < w.transactions.len() && #[trigger] w.transactions[k].transaction_id@ == id;
        if k < v.transactions.len() {
            assert(v.transactions[k].transaction_id@ == id);
        }
    }
}

/// A run of `log_transaction` calls with distinct, unused ids on one arena
/// adds the number of calls to `total_transactions` and the sum of their
/// amounts to `total_volume`, as long as neither counter overflows.
pub proof fn lemma_log_all(
    v: LedgerView,
    ctx: LogTransaction,
    txs: Seq<(String, String, String, u64, String)>,
)
    requires
        wf(v),
        has_arena(v, ctx.arena_id@),
        forall|k: int| 0 <= k < txs.len() ==> tx_fits(#[trigger] txs[k]),
        forall|k: int| 0 <= k < txs.len() ==> !has_transaction(v, #[trigger] tx_id(txs[k])),
        forall|a: int, b: int|
            0 <= a < b < txs.len() ==> #[trigger] tx_id(txs[a]) != #[trigger] tx_id(txs[b]),
        arena_of(v, ctx.arena_id@).total_transactions + txs.len() <= u64::MAX,
        arena_of(v, ctx.arena_id@).total_volume + total_amount(txs) <= u64::MAX,
    ensures
        log_all(v, ctx, txs) matches Ok(w) && {
            &&& wf(w)
            &&& arena_of(w, ctx.arena_id@).total_transactions == arena_of(
                v,
                ctx.arena_id@,
            ).total_transactions + txs.len()
            &&& arena_of(w, ctx.arena_id@).total_volume == arena_of(v, ctx.arena_id@).total_volume
                + total_amount(txs)
        },
    decreases txs.len(),
{
    if txs.len() > 0 {
        let t = txs[0];
        assert(tx_fits(txs[0]));
        assert(!has_transaction(v, tx_id(txs[0])));
        lemma_amounts_nonneg(txs.drop_first());
        lemma_log_one(v, ctx, t);
        let w = log_transaction_step(v, ctx, t.0, t.1, t.2, t.3, t.4)->Ok_0;
        let rest = txs.drop_first();
        assert forall|k: int| 0 <= k < rest.len() implies tx_fits(#[trigger] rest[k]) by {
            assert(tx_fits(txs[k + 1]));
        }
        assert forall|k: int| 0 <= k < rest.len() implies !has_transaction(
            w,
            #[trigger] tx_id(rest[k]),
        ) by {
            assert(!has_transaction(v, tx_id(txs[k + 1])));
            assert(tx_id(txs[0]) != tx_id(txs[k + 1]));
        }
        assert forall|a: int, b: int| 0 <= a < b < rest.len() implies #[trigger] tx_id(rest[a])
            != #[trigger] tx_id(rest[b]) by {
            assert(tx_id(txs[a + 1]) != tx_id(txs[b + 1]));
        }
        lemma_log_all(w, ctx, rest);
    }
}

/// Two accepted `log_transaction` calls on one arena leave the same arenas
/// whichever comes first: the aggregation is commutative.
pub proof fn lemma_log_commutes(
    v: LedgerView,
    ctx: LogTransaction,
    t1: (String, String, String, u64, String),
    t2: (String, String, String, u64, String),
)
    requires
        wf(v),
        log_all(v, ctx, seq![t1, t2]) is Ok,
        log_all(v, ctx, seq![t2, t1]) is Ok,
    ensures
        (log_all(v, ctx, seq![t1, t2])->Ok_0).arenas == (log_all(v, ctx, seq![t2, t1])->Ok_0).arenas,
{
    let s12 = seq![t1, t2];
    let s21 = seq![t2, t1];
    assert(s12[0] == t1 && s12.drop_first() =~= seq![t2] && seq![t2].drop_first() =~= Seq::<
        (String, String, String, u64, String),
    >::empty());
    assert(s21[0] == t2 && s21.drop_first() =~= seq![t1] && seq![t1].drop_first() =~= Seq::<
        (String, String, String, u64, String),
    >::empty());
    lemma_log_one(v, ctx, t1);
    lemma_log_one(v, ctx, t2);
    let w1 = log_transaction_step(v, ctx, t1.0, t1.1, t1.2, t1.3, t1.4)->Ok_0;
    let w2 = log_transaction_step(v, ctx, t2.0, t2.1, t2.2, t2.3, t2.4)->Ok_0;
    assert(log_all(w1, ctx, seq![t2]) is Ok);
    assert(log_all(w2, ctx, seq![t1]) is Ok);
    lemma_log_one(w1, ctx, t2);
    lemma_log_one(w2, ctx, t1);
    let i = arena_index(v, ctx.arena_id@);
    let w12 = log_transaction_step(w1, ctx, t2.0, t2.1, t2.2, t2.3, t2.4)->Ok_0;
    let w21 = log_transaction_step(w2, ctx, t1.0, t1.1, t1.2, t1.3, t1.4)->Ok_0;
    assert(log_all(w12, ctx, seq![t2].drop_first()) == Ok::<LedgerView, ArenaError>(w12));
    assert(log_all(w1, ctx, seq![t2]) == Ok::<LedgerView, ArenaError>(w12));
    assert(log_all(v, ctx, s12) == log_all(w1, ctx, s12.drop_first()));
    assert(log_all(w21, ctx, seq![t1].drop_first()) == Ok::<LedgerView, ArenaError>(w21));
    assert(log_all(w2, ctx, seq![t1]) == Ok::<LedgerView, ArenaError>(w21));
    assert(log_all(v, ctx, s21) == log_all(w2, ctx, s21.drop_first()));
    assert(w12.arenas[i] == w21.arenas[i]);
    assert(w12.arenas =~= w21.arenas);
}

/// Amounts are never negative, so neither is their sum.
proof fn lemma_amounts_nonneg(txs: Seq<(String, String, String, u64, String)>)
    ensures
        total_amount(txs) >= 0,
    decreases txs.len(),
{
    if txs.len() > 0 {
        lemma_amounts_nonneg(txs.drop_first());
    }
}

/// A `log_transaction` that reuses a recorded transaction id is refused with
/// `AlreadyExists`, whatever its other arguments; a refused call leaves the
/// ledger, and so every counter, unchanged.
pub proof fn lemma_repeated_transaction(
    v: LedgerView,
    ctx: LogTransaction,
    transaction_id: String,
    from_agent: String,
    to_agent: String,
    amount: u64,
    service_type: String,
)
    requires
        wf(v),
        has_transaction(v, transaction_id@),
    ensures
        log_transaction_step(v, ctx, transaction_id, from_agent, to_agent, amount, service_type)
            == Err::<LedgerView, ArenaError>(ArenaError::AlreadyExists),
{
    let i = choose|i: int|
        0 <= i < v.transactions.len() && #[trigger] v.transactions[i].transaction_id@
            == transaction_id@;
    assert(byte_len(v.transactions[i].transaction_id@) <= MAX_ID_LEN);
}

/// A second `log_death` for an agent is refused with `AlreadyExists`,
/// whatever its other arguments.
pub proof fn lemma_repeated_death(
    v: LedgerView,
    ctx: LogDeath,
    agent_id: String,
    agent_name: String,
    final_balance: u64,
    services_completed: u32,
)
    requires
        wf(v),
        has_death(v, agent_id@),
    ensures
        log_death_step(v, ctx, agent_id, agent_name, final_balance, services_completed)
            == Err::<LedgerView, ArenaError>(ArenaError::AlreadyExists),
{
    let i = choose|i: int| 0 <= i < v.deaths.len() && #[trigger] v.deaths[i].agent_id@ == agent_id@;
    assert(byte_len(v.deaths[i].agent_id@) <= MAX_ID_LEN);
}

/// A second bet of a bettor on one agent is refused with `AlreadyExists`,
/// whatever its amount.
pub proof fn lemma_repeated_bet(v: LedgerView, ctx: PlaceBet, agent_id: String, amount: u64)
    requires
        wf(v),
        has_bet(v, ctx.bettor, agent_id@),
    ensures
        place_bet_step(v, ctx, agent_id, amount) == Err::<LedgerView, ArenaError>(
            ArenaError::AlreadyExists,
        ),
{
    let i = choose|i: int| #[trigger] bet_at(v, ctx.bettor, agent_id@, i);
    assert(byte_len(v.bets[i].agent_id@) <= MAX_ID_LEN);
}

/// `update_stats` by anyone but the arena's authority is refused with
/// `Unauthorized`.
pub proof fn lemma_update_stats_unauthorized(
    v: LedgerView,
    ctx: UpdateStats,
    alive_agents: u32,
    dead_agents: u32,
    avg_balance: u64,
    gini_coefficient: u16,
)
    requires
        has_arena(v, ctx.arena_id@),
        ctx.authority.bytes@ != arena_of(v, ctx.arena_id@).authority.bytes@,
    ensures
        update_stats_step(v, ctx, alive_agents, dead_agents, avg_balance, gini_coefficient)
            == Err::<LedgerView, ArenaError>(ArenaError::Unauthorized),
{
}

/// `update_stats` twice with the same arguments leaves the ledger as the
/// first call left it.
pub proof fn lemma_update_stats_idempotent(
    v: LedgerView,
    ctx: UpdateStats,
    alive_agents: u32,
    dead_agents: u32,
    avg_balance: u64,
    gini_coefficient: u16,
)
    requires
        keys_unique(v),
        update_stats_step(v, ctx, alive_agents, dead_agents, avg_balance, gini_coefficient) is Ok,
    ensures
        ({
            let w = update_stats_step(
                v,
                ctx,
                alive_agents,
                dead_agents,
                avg_balance,
                gini_coefficient,
            )->Ok_0;
            update_stats_step(w, ctx, alive_agents, dead_agents, avg_balance, gini_coefficient)
                == Ok::<LedgerView, ArenaError>(w)
        }),
{
    let i = arena_index(v, ctx.arena_id@);
    assert(arena_at(v, ctx.arena_id@, i));
    let w = update_stats_step(v, ctx, alive_agents, dead_agents, avg_balance, gini_coefficient)->Ok_0;
    assert(arena_at(w, ctx.arena_id@, i));
    let j = arena_index(w, ctx.arena_id@);
    assert(arena_at(w, ctx.arena_id@, j));
    assert(w.arenas[j].arena_id@ == v.arenas[j].arena_id@);
    assert(w.arenas.update(i, w.arenas[i]) =~= w.arenas);
}

/// A bet larger than the bettor's available balance (with an agent id that
/// fits, on an existing arena, and no earlier bet of the bettor on the agent)
/// is refused with `InsufficientBalance`: no bet is recorded and no counter
/// moves.
pub proof fn lemma_bet_over_balance(v: LedgerView, ctx: PlaceBet, agent_id: String, amount: u64)
    requires
        byte_len(agent_id@) <= MAX_ID_LEN,
        has_arena(v, ctx.arena_id@),
        !has_bet(v, ctx.bettor, agent_id@),
        amount > ctx.bettor_balance,
    ensures
        place_bet_step(v, ctx, agent_id, amount) == Err::<LedgerView, ArenaError>(
            ArenaError::InsufficientBalance,
        ),
{
}

} // verus!
