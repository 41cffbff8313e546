use arena_logger::address::{bet_key, is_record_address, program_id, record_address, Namespace};
use arena_logger::identity::Identity;
use arena_logger::ledger::{
    initialize_arena, log_death, log_transaction, place_bet, update_stats, Ledger,
};
use arena_logger::records::{
    ArenaError, InitializeArena, LogDeath, LogTransaction, PlaceBet, UpdateStats,
};

fn who(b: u8) -> Identity {
    Identity::new([b; 32])
}

fn ledger_with(arena_id: &str, authority: Identity) -> Ledger {
    let mut ledger = Ledger::new();
    let ctx = InitializeArena { authority, now: 1_700_000_000 };
    assert_eq!(initialize_arena(&mut ledger, &ctx, arena_id.to_string()), Ok(()));
    ledger
}

fn tx_ctx(arena_id: &str) -> LogTransaction {
    LogTransaction { arena_id: arena_id.to_string(), authority: who(1), now: 1_700_000_100 }
}

fn log(ledger: &mut Ledger, arena_id: &str, id: &str, amount: u64) -> Result<(), ArenaError> {
    log_transaction(
        ledger,
        &tx_ctx(arena_id),
        id.to_string(),
        "agentA".to_string(),
        "agentB".to_string(),
        amount,
        "compute".to_string(),
    )
}

fn bet_ctx(arena_id: &str, bettor: Identity, balance: u64) -> PlaceBet {
    PlaceBet { arena_id: arena_id.to_string(), bettor, bettor_balance: balance, now: 1_700_000_200 }
}

fn stats_ctx(arena_id: &str, authority: Identity) -> UpdateStats {
    UpdateStats { arena_id: arena_id.to_string(), authority }
}

#[test]
fn concrete_scenario() {
    let authority = who(1);
    let mut ledger = ledger_with("alpha", authority);
    assert_eq!(log(&mut ledger, "alpha", "tx1", 1_000_000), Ok(()));
    assert_eq!(ledger.arenas[0].total_transactions, 1);
    assert_eq!(ledger.arenas[0].total_volume, 1_000_000);
    assert_eq!(log(&mut ledger, "alpha", "tx1", 1_000_000), Err(ArenaError::AlreadyExists));
    assert_eq!(ledger.arenas[0].total_transactions, 1);
    assert_eq!(ledger.arenas[0].total_volume, 1_000_000);

    let mut bet = bet_ctx("alpha", who(9), 800);
    assert_eq!(place_bet(&mut ledger, &mut bet, "agentB".to_string(), 500), Ok(()));
    assert_eq!(ledger.arenas[0].total_bets, 1);
    assert_eq!(ledger.arenas[0].total_bet_volume, 500);
    assert_eq!(ledger.bets.len(), 1);
    assert!(!ledger.bets[0].claimed);
    assert_eq!(ledger.bets[0].amount, 500);
    assert!(ledger.bets[0].arena == ledger.arenas[0].address);
    assert_eq!(bet.bettor_balance, 300);
    assert_eq!(ledger.arenas[0].escrow, 500);

    let intruder = stats_ctx("alpha", who(2));
    assert_eq!(update_stats(&mut ledger, &intruder, 1, 0, 1_000_000, 0), Err(ArenaError::Unauthorized));
    assert_eq!(ledger.arenas[0].total_agents, 0);
    let owner = stats_ctx("alpha", authority);
    assert_eq!(update_stats(&mut ledger, &owner, 1, 0, 1_000_000, 0), Ok(()));
    assert_eq!(ledger.arenas[0].total_agents, 1);
    assert_eq!(ledger.arenas[0].alive_agents, 1);
    assert_eq!(ledger.arenas[0].dead_agents, 0);
    assert_eq!(ledger.arenas[0].avg_balance, 1_000_000);
}

#[test]
fn initialize_twice_is_refused() {
    let mut ledger = ledger_with("alpha", who(1));
    let a = &ledger.arenas[0];
    assert_eq!(a.arena_id, "alpha");
    assert!(a.authority == who(1));
    assert_eq!(a.started_at, 1_700_000_000);
    assert_eq!(a.total_transactions, 0);
    assert_eq!(a.total_volume, 0);
    assert_eq!(a.total_agents, 0);
    assert_eq!(a.alive_agents, 0);
    assert_eq!(a.dead_agents, 0);
    assert_eq!(a.avg_balance, 0);
    assert_eq!(a.gini_coefficient, 0);
    assert_eq!(a.total_bets, 0);
    assert_eq!(a.total_bet_volume, 0);
    assert_eq!(a.escrow, 0);
    let again = InitializeArena { authority: who(2), now: 5 };
    assert_eq!(initialize_arena(&mut ledger, &again, "alpha".to_string()), Err(ArenaError::AlreadyExists));
    assert_eq!(ledger.arenas.len(), 1);
    assert!(ledger.arenas[0].authority == who(1));
}

#[test]
fn totals_do_not_depend_on_order() {
    let amounts = [5u64, 70, 300, 1];
    let mut forward = ledger_with("alpha", who(1));
    for (k, a) in amounts.iter().enumerate() {
        assert_eq!(log(&mut forward, "alpha", &format!("t{}", k), *a), Ok(()));
    }
    let mut backward = ledger_with("alpha", who(1));
    for (k, a) in amounts.iter().enumerate().rev() {
        assert_eq!(log(&mut backward, "alpha", &format!("t{}", k), *a), Ok(()));
    }
    for l in [&forward, &backward] {
        assert_eq!(l.arenas[0].total_transactions, 4);
        assert_eq!(l.arenas[0].total_volume, 376);
        assert_eq!(l.transactions.len(), 4);
    }
}

#[test]
fn repeated_transaction_leaves_counters() {
    let mut ledger = ledger_with("alpha", who(1));
    assert_eq!(log(&mut ledger, "alpha", "tx", 40), Ok(()));
    assert_eq!(log(&mut ledger, "alpha", "tx", 99), Err(ArenaError::AlreadyExists));
    assert_eq!(ledger.arenas[0].total_transactions, 1);
    assert_eq!(ledger.arenas[0].total_volume, 40);
    assert_eq!(ledger.transactions.len(), 1);
    assert_eq!(ledger.transactions[0].amount, 40);
    assert_eq!(ledger.transactions[0].from_agent, "agentA");
    assert_eq!(ledger.transactions[0].to_agent, "agentB");
    assert_eq!(ledger.transactions[0].service_type, "compute");
    assert_eq!(ledger.transactions[0].timestamp, 1_700_000_100);
}

#[test]
fn update_stats_authority_and_idempotence() {
    let mut ledger = ledger_with("alpha", who(1));
    let before = ledger.arenas[0].copy();
    assert_eq!(update_stats(&mut ledger, &stats_ctx("alpha", who(3)), 7, 3, 10, 4200), Err(ArenaError::Unauthorized));
    assert_eq!(ledger.arenas[0].total_agents, before.total_agents);
    assert_eq!(ledger.arenas[0].gini_coefficient, before.gini_coefficient);
    assert_eq!(update_stats(&mut ledger, &stats_ctx("alpha", who(1)), 7, 3, 10, 4200), Ok(()));
    let once = ledger.arenas[0].copy();
    assert_eq!(update_stats(&mut ledger, &stats_ctx("alpha", who(1)), 7, 3, 10, 4200), Ok(()));
    let twice = &ledger.arenas[0];
    assert_eq!(once.total_agents, 10);
    assert_eq!(once.gini_coefficient, 4200);
    assert_eq!(twice.total_agents, once.total_agents);
    assert_eq!(twice.alive_agents, once.alive_agents);
    assert_eq!(twice.dead_agents, once.dead_agents);
    assert_eq!(twice.avg_balance, once.avg_balance);
    assert_eq!(twice.gini_coefficient, once.gini_coefficient);
}

#[test]
fn bet_over_balance_is_refused() {
    let mut ledger = ledger_with("alpha", who(1));
    let mut ctx = bet_ctx("alpha", who(9), 499);
    assert_eq!(place_bet(&mut ledger, &mut ctx, "agentB".to_string(), 500), Err(ArenaError::InsufficientBalance));
    assert_eq!(ledger.bets.len(), 0);
    assert_eq!(ledger.arenas[0].total_bets, 0);
    assert_eq!(ledger.arenas[0].total_bet_volume, 0);
    assert_eq!(ctx.bettor_balance, 499);
    assert_eq!(place_bet(&mut ledger, &mut ctx, "agentB".to_string(), 499), Ok(()));
    assert_eq!(ctx.bettor_balance, 0);
}

#[test]
fn one_bet_per_bettor_and_agent() {
    let mut ledger = ledger_with("alpha", who(1));
    let mut ctx = bet_ctx("alpha", who(9), 1000);
    assert_eq!(place_bet(&mut ledger, &mut ctx, "agentB".to_string(), 10), Ok(()));
    assert_eq!(place_bet(&mut ledger, &mut ctx, "agentB".to_string(), 10), Err(ArenaError::AlreadyExists));
    assert_eq!(place_bet(&mut ledger, &mut ctx, "agentC".to_string(), 10), Ok(()));
    let mut other = bet_ctx("alpha", who(8), 1000);
    assert_eq!(place_bet(&mut ledger, &mut other, "agentB".to_string(), 10), Ok(()));
    assert_eq!(ledger.arenas[0].total_bets, 3);
    assert_eq!(ledger.arenas[0].total_bet_volume, 30);
    assert_eq!(ctx.bettor_balance, 980);
}

#[test]
fn death_is_logged_once() {
    let mut ledger = ledger_with("alpha", who(1));
    let ctx = LogDeath { arena_id: "alpha".to_string(), authority: who(1), now: 77 };
    assert_eq!(log_death(&mut ledger, &ctx, "a1".to_string(), "Ada".to_string(), 12, 3), Ok(()));
    assert_eq!(log_death(&mut ledger, &ctx, "a1".to_string(), "Ada".to_string(), 0, 0), Err(ArenaError::AlreadyExists));
    assert_eq!(ledger.deaths.len(), 1);
    assert_eq!(ledger.deaths[0].agent_name, "Ada");
    assert_eq!(ledger.deaths[0].final_balance, 12);
    assert_eq!(ledger.deaths[0].services_completed, 3);
    assert_eq!(ledger.deaths[0].timestamp, 77);
    assert_eq!(ledger.arenas[0].dead_agents, 0);
    assert_eq!(ledger.arenas[0].total_agents, 0);
}

#[test]
fn strings_over_their_bounds() {
    let mut ledger = Ledger::new();
    let ctx = InitializeArena { authority: who(1), now: 0 };
    assert_eq!(initialize_arena(&mut ledger, &ctx, "x".repeat(51)), Err(ArenaError::TooLong));
    assert_eq!(initialize_arena(&mut ledger, &ctx, "y".repeat(50)), Ok(()));
    let long_arena = "y".repeat(50);
    assert_eq!(log(&mut ledger, &long_arena, &"t".repeat(50), 1), Ok(()));
    assert_eq!(log(&mut ledger, &long_arena, &"t".repeat(51), 1), Err(ArenaError::TooLong));
    let svc = log_transaction(
        &mut ledger,
        &tx_ctx(&long_arena),
        "s".to_string(),
        "a".to_string(),
        "b".to_string(),
        1,
        "z".repeat(21),
    );
    assert_eq!(svc, Err(ArenaError::TooLong));
    let dctx = LogDeath { arena_id: long_arena.clone(), authority: who(1), now: 0 };
    assert_eq!(log_death(&mut ledger, &dctx, "a".to_string(), "n".repeat(51), 0, 0), Err(ArenaError::TooLong));
    let mut bctx = bet_ctx(&long_arena, who(4), 10);
    assert_eq!(place_bet(&mut ledger, &mut bctx, "g".repeat(51), 1), Err(ArenaError::TooLong));
    // a multi-byte character counts by its bytes
    assert_eq!(initialize_arena(&mut ledger, &ctx, "é".repeat(26)), Err(ArenaError::TooLong));
    assert_eq!(ledger.arenas[0].total_transactions, 1);
}

#[test]
fn unknown_arena_is_refused() {
    let mut ledger = ledger_with("alpha", who(1));
    assert_eq!(log(&mut ledger, "beta", "tx", 1), Err(ArenaError::ArenaNotFound));
    let dctx = LogDeath { arena_id: "beta".to_string(), authority: who(1), now: 0 };
    assert_eq!(log_death(&mut ledger, &dctx, "a".to_string(), "n".to_string(), 0, 0), Err(ArenaError::ArenaNotFound));
    assert_eq!(update_stats(&mut ledger, &stats_ctx("beta", who(1)), 1, 1, 1, 1), Err(ArenaError::ArenaNotFound));
    let mut bctx = bet_ctx("beta", who(4), 10);
    assert_eq!(place_bet(&mut ledger, &mut bctx, "g".to_string(), 1), Err(ArenaError::ArenaNotFound));
}

#[test]
fn counters_refuse_to_overflow() {
    let mut ledger = ledger_with("alpha", who(1));
    assert_eq!(log(&mut ledger, "alpha", "big", u64::MAX), Ok(()));
    assert_eq!(log(&mut ledger, "alpha", "one", 1), Err(ArenaError::Overflow));
    assert_eq!(ledger.arenas[0].total_transactions, 1);
    assert_eq!(ledger.arenas[0].total_volume, u64::MAX);
    assert_eq!(ledger.transactions.len(), 1);
    let owner = stats_ctx("alpha", who(1));
    assert_eq!(update_stats(&mut ledger, &owner, u32::MAX, 1, 0, 0), Err(ArenaError::Overflow));
    assert_eq!(update_stats(&mut ledger, &owner, u32::MAX - 1, 1, 0, 0), Ok(()));
    assert_eq!(ledger.arenas[0].total_agents, u32::MAX);
    let mut first = bet_ctx("alpha", who(5), u64::MAX);
    assert_eq!(place_bet(&mut ledger, &mut first, "g".to_string(), u64::MAX), Ok(()));
    let mut second = bet_ctx("alpha", who(6), 5);
    assert_eq!(place_bet(&mut ledger, &mut second, "g".to_string(), 1), Err(ArenaError::Overflow));
    assert_eq!(second.bettor_balance, 5);
    assert_eq!(ledger.arenas[0].total_bets, 1);
}

#[test]
fn addresses_are_derived_per_key() {
    let a1 = record_address(Namespace::Arena, b"alpha").unwrap();
    let a2 = record_address(Namespace::Arena, b"alpha").unwrap();
    let b = record_address(Namespace::Arena, b"beta").unwrap();
    let t = record_address(Namespace::Transaction, b"alpha").unwrap();
    assert!(a1.0 == a2.0);
    assert_eq!(a1.1, a2.1);
    assert!(a1.0 != b.0);
    assert!(a1.0 != t.0);
    assert!(a1.0 != program_id());
    assert!(a1.0.bytes != *b"alpha\0\0\0\0\0\0\0\0\0\0\0\0\0\0\0\0\0\0\0\0\0\0\0\0\0\0\0");
    let ledger = ledger_with("alpha", who(1));
    assert!(ledger.arenas[0].address == a1.0);
    let long = record_address(Namespace::Death, &[7u8; 50]);
    assert!(long.is_some());
}

#[test]
fn bet_key_joins_bettor_and_agent() {
    let k = bet_key(&who(3), b"ag");
    assert_eq!(k.len(), 34);
    assert_eq!(&k[..32], &[3u8; 32]);
    assert_eq!(&k[32..], b"ag");
    let a = record_address(Namespace::Bet, &bet_key(&who(3), b"ag")).unwrap();
    let c = record_address(Namespace::Bet, &bet_key(&who(4), b"ag")).unwrap();
    assert!(a.0 != c.0);
}

#[test]
fn identities_compare_by_bytes() {
    let mut bytes = [1u8; 32];
    assert!(Identity::new(bytes) == who(1));
    bytes[31] = 2;
    assert!(Identity::new(bytes) != who(1));
    assert!(who(1).same_as(&who(1)));
    assert!(!who(1).same_as(&who(2)));
}

#[test]
fn repeated_key_outranks_other_errors() {
    let mut ledger = ledger_with("alpha", who(1));
    assert_eq!(log(&mut ledger, "alpha", "tx1", 10), Ok(()));
    let again = log_transaction(
        &mut ledger,
        &tx_ctx("nowhere"),
        "tx1".to_string(),
        "f".repeat(51),
        "agentB".to_string(),
        u64::MAX,
        "s".repeat(21),
    );
    assert_eq!(again, Err(ArenaError::AlreadyExists));
    assert_eq!(ledger.arenas[0].total_transactions, 1);
    assert_eq!(ledger.arenas[0].total_volume, 10);

    let ctx = LogDeath { arena_id: "alpha".to_string(), authority: who(1), now: 1 };
    assert_eq!(log_death(&mut ledger, &ctx, "a1".to_string(), "Ada".to_string(), 1, 1), Ok(()));
    let elsewhere = LogDeath { arena_id: "nowhere".to_string(), authority: who(1), now: 2 };
    assert_eq!(
        log_death(&mut ledger, &elsewhere, "a1".to_string(), "n".repeat(51), 0, 0),
        Err(ArenaError::AlreadyExists)
    );
    assert_eq!(ledger.deaths.len(), 1);
    assert_eq!(ledger.deaths[0].agent_name, "Ada");

    let mut bet = bet_ctx("alpha", who(9), 100);
    assert_eq!(place_bet(&mut ledger, &mut bet, "agentB".to_string(), 60), Ok(()));
    let mut bet_elsewhere = bet_ctx("nowhere", who(9), 100);
    assert_eq!(
        place_bet(&mut ledger, &mut bet_elsewhere, "agentB".to_string(), 500),
        Err(ArenaError::AlreadyExists)
    );
    assert_eq!(bet_elsewhere.bettor_balance, 100);
    assert_eq!(ledger.arenas[0].total_bets, 1);
}

#[test]
fn record_accounts_are_checked_by_address() {
    let (addr, _) = record_address(Namespace::Transaction, b"tx1").unwrap();
    assert!(is_record_address(Namespace::Transaction, b"tx1", &addr));
    assert!(!is_record_address(Namespace::Transaction, b"tx2", &addr));
    assert!(!is_record_address(Namespace::Death, b"tx1", &addr));
    assert!(!is_record_address(Namespace::Transaction, b"tx1", &who(1)));
}
