use squink_splash::account::{compare_ids, AccountId, IdOrder};
use squink_splash::error::GameError;
use squink_splash::field::Field;
use squink_splash::game::{Payout, SquinkSplash};
use squink_splash::registry::{find_player, PLAYER_LIMIT};
use squink_splash::structs::{FieldEntry, Player, State, TurnOutcome, TurnTaken};
use squink_splash::turn::{Agent, AgentCall, AgentReply};
use squink_splash::structs::GameInfo;
use squink_splash::schedule::{calc_gas_budget, calc_gas_limit, calc_num_batches, current_batch};

fn id(n: u8) -> AccountId {
    let mut b = [0u8; 32];
    b[0] = n;
    AccountId(b)
}

const OPENER: u8 = 200;

fn game(w: u32, h: u32, buy_in: u128, rounds: u32) -> SquinkSplash {
    SquinkSplash::new(Field { x: w, y: h }, buy_in, 0, rounds, 0, id(OPENER))
}

/// Claims the first free field in row-major order, costing `cost` gas.
struct FirstFree {
    cost: u64,
    calls: u32,
}

impl Agent for FirstFree {
    fn your_turn(&mut self, game: &SquinkSplash, _p: &AccountId, _i: &GameInfo, _g: u64) -> AgentCall {
        self.calls += 1;
        let d = game.dimensions();
        for y in 0..d.y {
            for x in 0..d.x {
                if game.field(Field { x, y }).is_none() {
                    return AgentCall { reply: AgentReply::Move(Some(Field { x, y })), gas_used: self.cost };
                }
            }
        }
        AgentCall { reply: AgentReply::Move(None), gas_used: self.cost }
    }
}

/// Always answers the same thing.
struct Fixed {
    reply: AgentReply,
    cost: u64,
    calls: u32,
}

impl Agent for Fixed {
    fn your_turn(&mut self, _g: &SquinkSplash, _p: &AccountId, _i: &GameInfo, _l: u64) -> AgentCall {
        self.calls += 1;
        AgentCall { reply: self.reply, gas_used: self.cost }
    }
}

fn fixed(reply: AgentReply, cost: u64) -> Fixed {
    Fixed { reply, cost, calls: 0 }
}

#[test]
fn field_len_is_saturating_area() {
    assert_eq!(Field { x: 3, y: 4 }.len(), 12);
    assert_eq!(Field { x: 0, y: 7 }.len(), 0);
    assert_eq!(Field { x: u32::MAX, y: 2 }.len(), u32::MAX);
}

#[test]
fn linear_index_and_bounds() {
    let d = Field { x: 4, y: 3 };
    assert_eq!(d.index_of(&Field { x: 1, y: 2 }), Some(9));
    assert_eq!(d.index_of(&Field { x: 3, y: 0 }), Some(3));
    assert_eq!(d.index_of(&Field { x: 4, y: 0 }), None);
    assert_eq!(d.index_of(&Field { x: 0, y: 3 }), None);
    assert!(d.is_valid_coord(&Field { x: 3, y: 2 }));
    assert!(!d.is_valid_coord(&Field { x: 5, y: 0 }));
    let huge = Field { x: u32::MAX, y: u32::MAX };
    assert_eq!(huge.index_of(&Field { x: u32::MAX - 1, y: 1 }), None);
}

#[test]
fn batch_count_threshold() {
    assert_eq!(calc_num_batches(0), 1);
    assert_eq!(calc_num_batches(30), 1);
    assert_eq!(calc_num_batches(31), 2);
    assert_eq!(calc_num_batches(80), 2);
}

#[test]
fn gas_limit_and_budget_formulas() {
    assert_eq!(calc_gas_limit(0), 0);
    assert_eq!(calc_gas_limit(1), 250_000_000_000);
    assert_eq!(calc_gas_limit(30), 8_333_333_333);
    assert_eq!(calc_gas_limit(31), 16_129_032_258);
    assert_eq!(calc_gas_budget(100, 10), 200);
    assert_eq!(calc_gas_budget(100, 3), 0);
    assert_eq!(calc_gas_budget(u64::MAX, 8), u64::MAX);
}

#[test]
fn every_index_in_exactly_one_batch_of_two_rounds() {
    for idx in 0u32..40 {
        for start in 0u32..5 {
            let hits = (start..start + 2)
                .filter(|r| idx % 2 == current_batch(*r, 2))
                .count();
            assert_eq!(hits, 1);
        }
    }
    assert_eq!(current_batch(7, 1), 0);
}

#[test]
fn compare_ids_is_lexicographic() {
    let mut a = [0u8; 32];
    let mut b = [0u8; 32];
    a[5] = 1;
    b[4] = 1;
    assert_eq!(compare_ids(&AccountId(a), &AccountId(b)), IdOrder::Less);
    assert_eq!(compare_ids(&AccountId(b), &AccountId(a)), IdOrder::Greater);
    assert_eq!(compare_ids(&AccountId(a), &AccountId(a)), IdOrder::Equal);
}

#[test]
fn registry_stays_sorted_by_id() {
    let mut g = game(4, 4, 0, 8);
    for (n, name) in [(5u8, "eve"), (1, "ada"), (9, "ivy"), (3, "cat")] {
        assert_eq!(
            g.register_player(id(n), name.to_string(), 0),
            Ok(squink_splash::structs::PlayerRegistered { player: id(n) })
        );
    }
    let ids: Vec<u8> = g.players.iter().map(|p| p.id.0[0]).collect();
    assert_eq!(ids, vec![1, 3, 5, 9]);
    assert_eq!(find_player(&id(5), &g.players), Ok(2));
    assert_eq!(find_player(&id(4), &g.players), Err(2));
    assert_eq!(find_player(&id(10), &g.players), Err(4));
    let p = &g.players[0];
    assert_eq!((p.gas_used, p.score, p.name.as_str()), (0, 0, "ada"));
}

#[test]
fn short_name_is_refused() {
    let mut g = game(4, 4, 0, 8);
    assert_eq!(g.register_player(id(1), "ab".to_string(), 0), Err(GameError::InvalidLengthForName));
    assert_eq!(g.players.len(), 0);
    assert_eq!(
        g.register_player(id(1), "a".repeat(17), 0),
        Err(GameError::InvalidLengthForName)
    );
    assert!(g.register_player(id(1), "a".repeat(16), 0).is_ok());
    assert!(g.register_player(id(2), "abc".to_string(), 0).is_ok());
}

#[test]
fn registration_errors() {
    let mut g = game(4, 4, 10, 8);
    assert_eq!(g.register_player(id(1), "ada".to_string(), 9), Err(GameError::WrongBuyIn));
    assert!(g.register_player(id(1), "ada".to_string(), 10).is_ok());
    assert_eq!(
        g.register_player(id(1), "bob".to_string(), 10),
        Err(GameError::PlayerAlreadyRegistered)
    );
    assert_eq!(
        g.register_player(id(2), "ada".to_string(), 10),
        Err(GameError::ThisNameIsAlreadyTaken)
    );
    assert_eq!(g.players.len(), 1);
    assert!(g.start_game(id(OPENER), 0).is_ok());
    assert_eq!(
        g.register_player(id(3), "cat".to_string(), 10),
        Err(GameError::PlayersCanOnlyBeRegisteredInTheFormingPhase)
    );
}

#[test]
fn registry_capacity() {
    let mut g = game(4, 4, 0, 8);
    for n in 0..PLAYER_LIMIT {
        assert!(g.register_player(id(n as u8), format!("p{:03}", n), 0).is_ok());
    }
    assert_eq!(
        g.register_player(id(250), "late".to_string(), 0),
        Err(GameError::MaximumPlayerCountReached)
    );
    assert_eq!(g.players.len(), PLAYER_LIMIT);
    assert_eq!(g.num_batches(), 2);
}

#[test]
fn start_game_errors() {
    let mut g = SquinkSplash::new(Field { x: 2, y: 2 }, 0, 5, 4, 10, id(OPENER));
    assert_eq!(g.state(), State::Forming { earliest_start: 15 });
    assert_eq!(g.start_game(id(OPENER), 20), Err(GameError::YouNeedAtLeastOnePlayer));
    assert!(g.register_player(id(1), "ada".to_string(), 0).is_ok());
    assert_eq!(g.start_game(id(1), 20), Err(GameError::OnlyAdminCanStartTheGame));
    assert_eq!(g.start_game(id(OPENER), 14), Err(GameError::GameCantBeStartedYet));
    assert_eq!(
        g.start_game(id(OPENER), 15),
        Ok(squink_splash::structs::GameStarted { starter: id(OPENER) })
    );
    assert_eq!(g.state(), State::Running { rounds_played: 0 });
    assert_eq!(g.start_game(id(OPENER), 16), Err(GameError::GameAlreadyStarted));
    let late = SquinkSplash::new(Field { x: 1, y: 1 }, 0, u32::MAX, 1, 3, id(OPENER));
    assert_eq!(late.state(), State::Forming { earliest_start: u32::MAX });
}

#[test]
fn single_player_fills_small_board() {
    let mut g = game(2, 2, 0, 4);
    assert!(g.register_player(id(1), "ada".to_string(), 0).is_ok());
    assert!(g.start_game(id(OPENER), 1).is_ok());
    let mut agent = FirstFree { cost: 1_000, calls: 0 };
    for block in 2..6 {
        let turns = g.submit_turn(block, &mut agent).unwrap();
        assert_eq!(turns.len(), 1);
        assert!(matches!(turns[0].outcome, TurnOutcome::Success { .. }));
    }
    assert!(!g.is_running());
    let board = g.board();
    assert_eq!(board.len(), 4);
    for (i, e) in board.iter().enumerate() {
        assert_eq!(*e, Some(FieldEntry { owner: id(1), claimed_at: i as u32 }));
    }
    assert_eq!(g.players[0].score, 10);
    assert_eq!(g.players[0].gas_used, 4_000);
    assert_eq!(
        g.submit_turn(6, &mut agent),
        Err(GameError::GameCannotBeEndedOrHasAlreadyEnded)
    );
}

#[test]
fn off_board_agent_scores_nothing_but_pays() {
    let mut g = game(3, 3, 0, 8);
    assert!(g.register_player(id(1), "ada".to_string(), 0).is_ok());
    assert!(g.start_game(id(OPENER), 0).is_ok());
    let mut agent = fixed(AgentReply::Move(Some(Field { x: 3, y: 0 })), 50);
    for block in 1..9 {
        let turns = g.submit_turn(block, &mut agent).unwrap();
        assert_eq!(
            turns,
            vec![TurnTaken {
                player: id(1),
                outcome: TurnOutcome::OutOfBounds { turn: Field { x: 3, y: 0 } }
            }]
        );
    }
    assert_eq!(g.players[0].score, 0);
    assert_eq!(g.players[0].gas_used, 400);
    assert_eq!(g.board().iter().filter(|e| e.is_some()).count(), 0);
}

#[test]
fn second_trigger_in_same_block_is_refused() {
    let mut g = game(3, 3, 0, 8);
    assert!(g.register_player(id(1), "ada".to_string(), 0).is_ok());
    assert!(g.start_game(id(OPENER), 5).is_ok());
    let mut agent = FirstFree { cost: 7, calls: 0 };
    assert_eq!(
        g.submit_turn(5, &mut agent),
        Err(GameError::TurnWasAlreadySubmittedForThisBlock)
    );
    assert!(g.submit_turn(6, &mut agent).is_ok());
    let before = (g.state(), g.board(), g.players[0].score, g.players[0].gas_used);
    assert_eq!(
        g.submit_turn(6, &mut agent),
        Err(GameError::TurnWasAlreadySubmittedForThisBlock)
    );
    assert_eq!((g.state(), g.board(), g.players[0].score, g.players[0].gas_used), before);
    assert_eq!(agent.calls, 1);
    assert_eq!(g.state(), State::Running { rounds_played: 1 });
}

#[test]
fn missing_marker_is_refused() {
    let mut g = game(3, 3, 0, 8);
    g.state = State::Running { rounds_played: 0 };
    let mut agent = FirstFree { cost: 7, calls: 0 };
    assert_eq!(
        g.submit_turn(1, &mut agent),
        Err(GameError::ValueWasNotSetWhenStartingTheGame)
    );
}

#[test]
fn occupied_field_reports_owner() {
    let mut g = game(3, 3, 0, 8);
    assert!(g.register_player(id(1), "ada".to_string(), 0).is_ok());
    assert!(g.register_player(id(2), "bob".to_string(), 0).is_ok());
    assert!(g.start_game(id(OPENER), 0).is_ok());
    let mut agent = fixed(AgentReply::Move(Some(Field { x: 1, y: 1 })), 3);
    let turns = g.submit_turn(1, &mut agent).unwrap();
    assert_eq!(turns[0].outcome, TurnOutcome::Success { turn: Field { x: 1, y: 1 } });
    assert_eq!(
        turns[1].outcome,
        TurnOutcome::Occupied { turn: Field { x: 1, y: 1 }, player: id(1) }
    );
    assert_eq!((g.players[0].score, g.players[1].score), (1, 0));
    let turns = g.submit_turn(2, &mut agent).unwrap();
    assert_eq!(
        turns[0].outcome,
        TurnOutcome::Occupied { turn: Field { x: 1, y: 1 }, player: id(1) }
    );
    assert_eq!(g.field(Field { x: 1, y: 1 }), Some(FieldEntry { owner: id(1), claimed_at: 0 }));
    assert_eq!(g.field(Field { x: 9, y: 1 }), None);
}

#[test]
fn broken_and_idle_agents_are_charged() {
    let mut g = game(3, 3, 0, 8);
    assert!(g.register_player(id(1), "ada".to_string(), 0).is_ok());
    assert!(g.start_game(id(OPENER), 0).is_ok());
    let mut broken = fixed(AgentReply::Broken, 11);
    let turns = g.submit_turn(1, &mut broken).unwrap();
    assert_eq!(turns[0].outcome, TurnOutcome::BrokenPlayer);
    let mut idle = fixed(AgentReply::Move(None), 5);
    let turns = g.submit_turn(2, &mut idle).unwrap();
    assert_eq!(turns[0].outcome, TurnOutcome::NoTurn);
    assert_eq!(g.players[0].gas_used, 16);
    assert_eq!(g.players[0].score, 0);
}

#[test]
fn exhausted_budget_skips_agent() {
    // fewer than four rounds leave no budget for the game
    let mut g = game(3, 3, 0, 3);
    assert!(g.register_player(id(1), "ada".to_string(), 0).is_ok());
    assert!(g.start_game(id(OPENER), 0).is_ok());
    assert_eq!(g.gas_budget(), 0);
    let mut agent = FirstFree { cost: 7, calls: 0 };
    let turns = g.submit_turn(1, &mut agent).unwrap();
    assert_eq!(turns, vec![TurnTaken { player: id(1), outcome: TurnOutcome::BudgetExhausted }]);
    assert_eq!(agent.calls, 0);
    assert_eq!(g.players[0].gas_used, 0);
}

#[test]
fn budget_runs_out_after_spending() {
    let mut g = game(3, 3, 0, 4);
    assert!(g.register_player(id(1), "ada".to_string(), 0).is_ok());
    assert!(g.start_game(id(OPENER), 0).is_ok());
    assert_eq!(g.gas_budget(), 250_000_000_000);
    let mut agent = fixed(AgentReply::Broken, 250_000_000_000);
    assert_eq!(g.submit_turn(1, &mut agent).unwrap()[0].outcome, TurnOutcome::BrokenPlayer);
    assert_eq!(g.submit_turn(2, &mut agent).unwrap()[0].outcome, TurnOutcome::BudgetExhausted);
    assert_eq!(agent.calls, 1);
}

#[test]
fn large_games_alternate_batches() {
    let mut g = game(10, 10, 0, 8);
    for n in 0..31u8 {
        assert!(g.register_player(id(n), format!("p{:02}", n), 0).is_ok());
    }
    assert!(g.start_game(id(OPENER), 0).is_ok());
    let mut agent = fixed(AgentReply::Move(None), 1);
    let even = g.submit_turn(1, &mut agent).unwrap();
    let odd = g.submit_turn(2, &mut agent).unwrap();
    assert_eq!(even.len(), 16);
    assert_eq!(odd.len(), 15);
    assert!(even.iter().all(|t| t.player.0[0] % 2 == 0));
    assert!(odd.iter().all(|t| t.player.0[0] % 2 == 1));
    assert!(g.players.iter().all(|p| p.gas_used == 1));
}

/// Checks what the game tells it.
struct Check;
impl Agent for Check {
    fn your_turn(&mut self, _g: &SquinkSplash, _p: &AccountId, info: &GameInfo, limit: u64) -> AgentCall {
        assert_eq!(info.rounds_played, 0);
        assert_eq!(info.gas_left, 250_000_000_000);
        assert_eq!(limit, 125_000_000_000);
        assert_eq!(info.player_scores, vec![("ada".to_string(), 0), ("bob".to_string(), 0)]);
        AgentCall { reply: AgentReply::Move(None), gas_used: 0 }
    }
}

#[test]
fn agents_see_round_snapshot() {
    let mut g = game(3, 3, 0, 8);
    assert!(g.register_player(id(1), "ada".to_string(), 0).is_ok());
    assert!(g.register_player(id(2), "bob".to_string(), 0).is_ok());
    assert!(g.start_game(id(OPENER), 0).is_ok());
    assert_eq!(g.submit_turn(1, &mut Check).unwrap().len(), 2);
    let info = g.game_info(3);
    assert_eq!(info.rounds_played, 3);
    assert_eq!(info.player_scores.len(), 2);
}

fn finished_ranking_game() -> SquinkSplash {
    let mut g = game(3, 3, 7, 4);
    for (n, name) in [(1u8, "ada"), (2, "bob"), (3, "cat")] {
        assert!(g.register_player(id(n), name.to_string(), 7).is_ok());
    }
    assert!(g.start_game(id(OPENER), 0).is_ok());
    g.players[0].score = 10;
    g.players[0].gas_used = 5;
    g.players[1].score = 10;
    g.players[1].gas_used = 3;
    g.players[2].score = 9;
    g.players[2].gas_used = 0;
    g.state = State::Running { rounds_played: 4 };
    g
}

#[test]
fn winner_has_best_score_then_least_gas() {
    let g = finished_ranking_game();
    assert_eq!(SquinkSplash::winner_index(&g.players), 1);
    assert_eq!(g.payout(), Ok(Payout { winner: id(2), amount: 21 }));
    let order: Vec<u8> = g.players_sorted().iter().map(|p| p.id.0[0]).collect();
    assert_eq!(order, vec![2, 1, 3]);
    assert!(g.players[1].scoring_order() < g.players[0].scoring_order());
    assert!(g.players[0].scoring_order() < g.players[2].scoring_order());
}

#[test]
fn end_game_and_destroy() {
    let mut g = finished_ranking_game();
    assert_eq!(
        g.end_game(id(9), Err(GameError::InkEnvError("TransferFailed".to_string()))),
        Err(GameError::InkEnvError("TransferFailed".to_string()))
    );
    assert_eq!(g.state(), State::Running { rounds_played: 4 });
    assert_eq!(g.destroy(id(2)), Err(GameError::OnlyFinishedGamesCanBeDestroyed));
    assert_eq!(
        g.end_game(id(9), Ok(())),
        Ok(squink_splash::structs::GameEnded { ender: id(9) })
    );
    assert_eq!(g.state(), State::Finished { winner: id(2) });
    assert_eq!(g.end_game(id(9), Ok(())), Err(GameError::GameCantBeEndedOrHasAlreadyEnded));
    assert_eq!(
        g.destroy(id(1)),
        Err(GameError::OnlyWinnerIsAllowedToDestroyTheContract)
    );
    let d = g.destroy(id(2)).unwrap();
    assert_eq!(
        d.winner,
        Player { id: id(2), name: "bob".to_string(), gas_used: 3, score: 10 }
    );
    g.players.clear();
    assert_eq!(g.destroy(id(2)), Err(GameError::TheWinnerIsNotAPlayer));
}

#[test]
fn end_game_needs_all_rounds_and_players() {
    let mut g = game(3, 3, 0, 4);
    assert_eq!(g.payout(), Err(GameError::GameCantBeEndedOrHasAlreadyEnded));
    g.state = State::Running { rounds_played: 3 };
    assert_eq!(g.payout(), Err(GameError::GameCantBeEndedOrHasAlreadyEnded));
    g.state = State::Running { rounds_played: 4 };
    assert_eq!(
        g.end_game(id(1), Ok(())),
        Err(GameError::WeOnlyAllowStartingTheGameWithAtLeastOnePlayer)
    );
}

#[test]
fn pot_saturates() {
    let mut g = finished_ranking_game();
    g.buy_in = u128::MAX / 2;
    assert_eq!(g.payout().unwrap().amount, u128::MAX);
    assert_eq!(g.buy_in_amount(), u128::MAX / 2);
}

#[test]
fn reset_restores_forming() {
    let mut g = game(2, 2, 0, 4);
    assert_eq!(g.reset_game(3), Err(GameError::OnlyFinishedGameCanBeReset));
    assert!(g.register_player(id(1), "ada".to_string(), 0).is_ok());
    assert!(g.start_game(id(OPENER), 1).is_ok());
    let mut agent = FirstFree { cost: 1, calls: 0 };
    for block in 2..6 {
        assert!(g.submit_turn(block, &mut agent).is_ok());
    }
    assert!(g.end_game(id(1), Ok(())).is_ok());
    assert_eq!(g.reset_game(40), Ok(()));
    assert_eq!(g.state(), State::Forming { earliest_start: 40 });
    assert!(g.board().iter().all(|e| e.is_none()));
    assert_eq!(g.players.len(), 0);
    assert_eq!(g.last_turn, Some(0));
    assert_eq!(g.total_rounds(), 4);
    assert_eq!(g.dimensions(), Field { x: 2, y: 2 });
    assert!(g.register_player(id(1), "ada".to_string(), 0).is_ok());
}
