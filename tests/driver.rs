use op_challenger::alphabet::alphabet_trace;
use op_challenger::config::{log_level_for, LogLevel};
use op_challenger::events::{
    low_u64_be, parse_dispute_game_created, parse_output_proposed, EventError, GameType,
    InvalidGameType, OutputProposed,
};
use op_challenger::output::{
    attestation_needs_challenge, compare_output_root, encode_signature, has_pending_challenge,
    is_pending_create_call, output_challenge, OutputAtBlockResponse, PendingTransaction,
};
use op_challenger::game::Game;
use op_challenger::state::GlobalState;
use op_challenger::types::{ClaimData, Clock, GameError, Response};
use op_challenger::watcher::{
    call_for_response, claim_data_from_raw, plan_sync, process_new_claim, ClaimOutcome, GameCall,
    SyncStep,
};

const ROOT: usize = u32::MAX as usize;
const FACTORY: [u8; 20] = [0xfa; 20];

fn word(v: u64) -> Vec<u8> {
    let mut w = vec![0u8; 24];
    w.extend_from_slice(&v.to_be_bytes());
    w
}

fn create_calldata(game_type: u8, root: [u8; 32]) -> Vec<u8> {
    let mut input = vec![0x31, 0x42, 0xe5, 0x5e];
    input.extend(word(game_type as u64));
    input.extend_from_slice(&root);
    input.extend(word(0x60));
    input.extend(word(32));
    input.extend(word(16));
    input
}

fn proposal() -> OutputProposed {
    OutputProposed { output_root: [0xaa; 32], l2_block_number: 0x10 }
}

#[test]
fn game_type_from_byte() {
    assert_eq!(GameType::try_from(0u8), Ok(GameType::Fault));
    assert_eq!(GameType::try_from(1u8), Ok(GameType::Validity));
    assert_eq!(GameType::try_from(2u8), Ok(GameType::OutputAttestation));
    assert_eq!(GameType::try_from(3u8), Err(InvalidGameType { value: 3 }));
    assert_eq!(GameType::OutputAttestation.as_u8(), 2);
}

#[test]
fn dispute_game_created_topics() {
    let mut proxy_topic = [0u8; 32];
    for (i, b) in proxy_topic.iter_mut().enumerate() {
        *b = i as u8;
    }
    let mut type_topic = [0u8; 32];
    type_topic[31] = 2;
    let topics = vec![[0xee; 32], proxy_topic, type_topic, [0xdd; 32]];
    let event = parse_dispute_game_created(&topics).unwrap();
    assert_eq!(event.game_type, 2);
    let expected: Vec<u8> = (12u8..32).collect();
    assert_eq!(event.proxy.to_vec(), expected);
    assert_eq!(
        parse_dispute_game_created(&topics[..2].to_vec()),
        Err(EventError::MissingGameType)
    );
}

#[test]
fn output_proposed_topics() {
    let mut block_topic = [0xffu8; 32];
    block_topic[24..].copy_from_slice(&0x0102_0304_0506_0708u64.to_be_bytes());
    let topics = vec![[0xee; 32], [0xaa; 32], [0x01; 32], block_topic];
    let event = parse_output_proposed(&topics).unwrap();
    assert_eq!(event.output_root, [0xaa; 32]);
    assert_eq!(event.l2_block_number, 0x0102_0304_0506_0708);
    assert_eq!(low_u64_be(&block_topic), 0x0102_0304_0506_0708);
    assert_eq!(parse_output_proposed(&topics[..1].to_vec()), Err(EventError::MissingOutputRoot));
    assert_eq!(parse_output_proposed(&topics[..3].to_vec()), Err(EventError::MissingBlockNumber));
}

#[test]
fn matching_output_enqueues_nothing() {
    let (matches, response) =
        compare_output_root(&[0xaa; 32], OutputAtBlockResponse { output_root: [0xaa; 32] });
    assert!(matches);
    assert_eq!(response.output_root, [0xaa; 32]);
}

#[test]
fn mismatch_without_pending_creates_fault_game() {
    let (matches, _) =
        compare_output_root(&[0xaa; 32], OutputAtBlockResponse { output_root: [0xbb; 32] });
    assert!(!matches);
    let call = output_challenge(&FACTORY, &proposal(), &vec![]).unwrap();
    assert_eq!(call.factory, FACTORY);
    assert_eq!(call.game_type, 0);
    assert_eq!(call.root_claim, [0u8; 32]);
    assert_eq!(call.extra_data, word(16));
}

#[test]
fn mismatch_with_pending_duplicate_enqueues_nothing() {
    let pending = vec![
        PendingTransaction { to: Some([0x01; 20]), input: vec![1, 2, 3] },
        PendingTransaction { to: Some(FACTORY), input: create_calldata(0, [0xaa; 32]) },
    ];
    assert!(has_pending_challenge(&pending, &FACTORY, &[0xaa; 32]));
    assert_eq!(output_challenge(&FACTORY, &proposal(), &pending), None);
}

#[test]
fn pending_create_must_match_every_field() {
    let good = PendingTransaction { to: Some(FACTORY), input: create_calldata(0, [0xaa; 32]) };
    assert!(is_pending_create_call(&good, &FACTORY, &[0xaa; 32]));
    let other_factory = PendingTransaction { to: Some([0x01; 20]), ..good.clone() };
    let creation = PendingTransaction { to: None, ..good.clone() };
    let other_type = PendingTransaction { to: Some(FACTORY), input: create_calldata(2, [0xaa; 32]) };
    let other_root = PendingTransaction { to: Some(FACTORY), input: create_calldata(0, [0xab; 32]) };
    let mut selector = good.clone();
    selector.input[0] = 0x32;
    let mut short = good.clone();
    short.input.truncate(67);
    for tx in [&other_factory, &creation, &other_type, &other_root, &selector, &short] {
        assert!(!is_pending_create_call(tx, &FACTORY, &[0xaa; 32]));
    }
    let pending = vec![other_factory, creation, other_type, other_root, selector, short];
    assert!(!has_pending_challenge(&pending, &FACTORY, &[0xaa; 32]));
    assert!(output_challenge(&FACTORY, &proposal(), &pending).is_some());
}

#[test]
fn attestation_challenge_rules() {
    assert!(attestation_needs_challenge(false, false));
    assert!(!attestation_needs_challenge(true, false));
    assert!(!attestation_needs_challenge(false, true));
    let encoded = encode_signature(&[0x01; 32], &[0x02; 32], 27);
    assert_eq!(encoded.len(), 96);
    assert_eq!(&encoded[..32], &[0x01; 32]);
    assert_eq!(&encoded[32..64], &[0x02; 32]);
    assert_eq!(encoded[64..].to_vec(), word(27));
}

#[test]
fn claim_row_unpacks_clock() {
    let clock: u128 = (7u128 << 64) | 9;
    let row = claim_data_from_raw(u32::MAX, true, [0x42; 32], 5, clock);
    assert_eq!(row.parent_index, ROOT);
    assert!(row.countered);
    assert_eq!(row.claim, [0x42; 32]);
    assert_eq!(row.position, 5);
    assert_eq!(row.clock, Clock { duration: 7, timestamp: 9 });
}

#[test]
fn sync_plan_by_length() {
    assert_eq!(plan_sync(3, 3), SyncStep::UpToDate);
    assert_eq!(plan_sync(5, 2), SyncStep::Fetch(2, 5));
    assert_eq!(plan_sync(1, 2), SyncStep::LocalAhead);
}

#[test]
fn responses_become_calls() {
    assert_eq!(call_for_response(3, Response::DoNothing), None);
    assert_eq!(
        call_for_response(3, Response::Move(true, [1; 32], Some((1, [2; 32])))),
        Some(GameCall::Attack(3, [1; 32]))
    );
    assert_eq!(
        call_for_response(3, Response::Move(false, [1; 32], None)),
        Some(GameCall::Defend(3, [1; 32]))
    );
    assert_eq!(
        call_for_response(3, Response::Step(1, 3, true, vec![9], vec![])),
        Some(GameCall::Step(1, 3, true, vec![9], vec![]))
    );
}

fn row(parent_index: usize, position: u128, claim: [u8; 32]) -> ClaimData {
    ClaimData { parent_index, countered: false, claim, position, clock: Clock { duration: 0, timestamp: 0 } }
}

#[test]
fn tracked_games_answer_new_claims() {
    let mut state = GlobalState::default();
    assert!(state.alphabet_games.is_empty());
    assert_eq!(
        state.track_fault_game([0x11; 20], 100, row(0, 1, [0xaa; 32])),
        Err(GameError::InvalidClaimIndex)
    );
    assert_eq!(state.track_fault_game([0x11; 20], 100, row(ROOT, 1, [0xaa; 32])), Ok(()));
    assert_eq!(state.alphabet_games.len(), 1);
    let game = &mut state.alphabet_games[0];
    assert_eq!(game.address, [0x11; 20]);
    assert_eq!(game.created_at, 100);
    assert_eq!(game.trace, alphabet_trace());
    assert_eq!(game.state.len(), 1);
    let counter = game.claim_at(4).unwrap();
    let outcome = process_new_claim(game, row(0, 2, [0xbb; 32])).unwrap();
    assert_eq!(outcome, ClaimOutcome::Call(GameCall::Attack(1, counter)));
    assert_eq!(process_new_claim(game, row(7, 4, [0; 32])), Err(GameError::InvalidClaimIndex));
    assert_eq!(game.state.len(), 2);
    let outcome = process_new_claim(game, row(1, 32, [0; 32])).unwrap();
    assert_eq!(outcome, ClaimOutcome::Unanswered(GameError::InvalidPosition));
}

#[test]
fn log_levels() {
    assert_eq!(log_level_for(0), LogLevel::Error);
    assert_eq!(log_level_for(1), LogLevel::Warn);
    assert_eq!(log_level_for(2), LogLevel::Info);
    assert_eq!(log_level_for(3), LogLevel::Debug);
    assert_eq!(log_level_for(4), LogLevel::Trace);
    assert_eq!(log_level_for(200), LogLevel::Trace);
}
