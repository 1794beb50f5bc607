use ethers::abi::Token;
use ethers::types::U256;
use ethers::utils::keccak256;
use op_challenger::alphabet::{
    alphabet_trace, attack_target, in_game_tree, AlphabetGame, AttackTarget, MAX_DEPTH,
};
use op_challenger::game::Game;
use op_challenger::position::Position;
use op_challenger::types::{ClaimData, Clock, GameError, Response};

const ROOT: usize = u32::MAX as usize;

fn word(v: u64) -> Vec<u8> {
    let mut w = vec![0u8; 24];
    w.extend_from_slice(&v.to_be_bytes());
    w
}

fn preimage(position: u128) -> Vec<u8> {
    let ti = position.trace_index(MAX_DEPTH);
    let mut v = word(ti);
    v.extend(word(16 + ti));
    v
}

fn our_claim(position: u128) -> [u8; 32] {
    let ti = position.trace_index(MAX_DEPTH);
    keccak256(ethers::abi::encode(&[
        Token::Uint(U256::from(ti)),
        Token::Uint(U256::from(16 + ti)),
    ]))
}

fn row(parent_index: usize, position: u128, claim: [u8; 32]) -> ClaimData {
    ClaimData {
        parent_index,
        countered: false,
        claim,
        position,
        clock: Clock { duration: 0, timestamp: 0 },
    }
}

fn game_with(rows: Vec<ClaimData>) -> AlphabetGame {
    let mut game = AlphabetGame::new([0x11; 20], 1_700_000_000, alphabet_trace());
    for r in rows {
        assert_eq!(game.push_claim(r), Ok(()));
    }
    game
}

#[test]
fn alphabet_trace_is_sixteen_to_thirty_one() {
    let t = alphabet_trace();
    assert_eq!(t, (16u8..32).collect::<Vec<u8>>());
}

#[test]
fn encode_claim_is_two_words() {
    let game = game_with(vec![]);
    let encoded = game.encode_claim(5).unwrap();
    assert_eq!(encoded.len(), 64);
    assert_eq!(encoded, preimage(5));
    assert_eq!(encoded[31], 7);
    assert_eq!(encoded[63], 23);
    assert!(encoded[..31].iter().all(|b| *b == 0));
}

#[test]
fn claim_at_is_digest_of_preimage() {
    let game = game_with(vec![]);
    for p in 1u128..32 {
        let c = game.claim_at(p).unwrap();
        assert_eq!(c, our_claim(p));
        assert_eq!(c, keccak256(preimage(p)));
        assert_ne!(c.to_vec(), preimage(p)[..32].to_vec());
    }
    assert_eq!(game.claim_at(2).unwrap(), game.claim_at(23).unwrap());
}

#[test]
fn claim_at_depends_on_trace_byte_only() {
    let a = game_with(vec![]);
    let mut b = game_with(vec![]);
    b.trace[3] = 99;
    assert_eq!(a.claim_at(2).unwrap(), b.claim_at(2).unwrap());
    assert_ne!(a.claim_at(19).unwrap(), b.claim_at(19).unwrap());
}

#[test]
fn state_at_reads_the_trace() {
    let game = game_with(vec![]);
    assert_eq!(game.state_at(1), Ok(31));
    assert_eq!(game.state_at(16), Ok(16));
    assert_eq!(game.state_at(0), Err(GameError::InvalidPosition));
    assert_eq!(game.state_at(32), Err(GameError::InvalidPosition));
    let mut short = game_with(vec![]);
    short.trace.truncate(8);
    assert_eq!(short.state_at(1), Err(GameError::InvalidTraceIndex));
    assert_eq!(short.claim_at(1), Err(GameError::InvalidTraceIndex));
    assert_eq!(short.state_at(2), Ok(23));
    assert!(in_game_tree(31));
    assert!(!in_game_tree(32));
}

#[test]
fn root_only_game_attacks_root() {
    let game = game_with(vec![row(ROOT, 1, [0xaa; 32])]);
    let r = game.respond(0).unwrap();
    assert_eq!(r, Response::Move(true, game.claim_at(2).unwrap(), None));
    assert_eq!(r, Response::Move(true, our_claim(2), None));
}

#[test]
fn agreeing_with_root_does_nothing() {
    let game = game_with(vec![row(ROOT, 1, our_claim(1))]);
    assert_eq!(game.respond(0), Ok(Response::DoNothing));
}

#[test]
fn agreeing_with_parent_does_nothing() {
    let game = game_with(vec![row(ROOT, 1, [0xaa; 32]), row(0, 2, our_claim(2))]);
    assert_eq!(game.respond(1), Ok(Response::DoNothing));
    let game = game_with(vec![row(ROOT, 1, our_claim(1)), row(0, 2, our_claim(2))]);
    assert_eq!(game.respond(1), Ok(Response::DoNothing));
}

#[test]
fn disagreeing_with_parent_and_grandparent_counters_both() {
    let game = game_with(vec![row(ROOT, 1, [0xaa; 32]), row(0, 2, [0xbb; 32])]);
    assert_eq!(
        game.respond(1),
        Ok(Response::Move(true, our_claim(4), Some((0, our_claim(2)))))
    );
}

#[test]
fn disagreeing_with_parent_only_counters_parent() {
    let game = game_with(vec![row(ROOT, 1, our_claim(1)), row(0, 2, [0xbb; 32])]);
    assert_eq!(game.respond(1), Ok(Response::Move(true, our_claim(4), None)));
}

#[test]
fn secondary_counter_is_zero_where_it_cannot_be_computed() {
    // The grandparent sits at the leaves, so the attack below it lies outside
    // the tree.
    let game = game_with(vec![row(ROOT, 16, [0xaa; 32]), row(0, 3, [0xbb; 32])]);
    assert_eq!(
        game.respond(1),
        Ok(Response::Move(true, our_claim(6), Some((0, [0u8; 32]))))
    );
}

/// A game in which every claim agrees with our trace but the last one, at
/// depth 4: root (1), attack (2), attack (4), defend (10), attack (20).
fn leaf_game(last_claim: [u8; 32]) -> AlphabetGame {
    game_with(vec![
        row(ROOT, 1, our_claim(1)),
        row(0, 2, our_claim(2)),
        row(1, 4, our_claim(4)),
        row(2, 10, our_claim(10)),
        row(3, 20, last_claim),
    ])
}

#[test]
fn leaf_disagreement_steps() {
    let game = leaf_game([0xcc; 32]);
    assert_eq!(4u128.make_move(false), 10);
    assert_eq!(10u128.make_move(true), 20);
    let r = game.respond(4).unwrap();
    let mut state_data = word(3);
    state_data.extend(word(19));
    assert_eq!(r, Response::Step(2, 4, true, state_data, vec![]));
    assert_eq!(game.find_prestate(4, 19), Ok(2));
}

#[test]
fn step_against_leftmost_leaf_uses_absolute_prestate() {
    let game = game_with(vec![
        row(ROOT, 1, our_claim(1)),
        row(0, 2, our_claim(2)),
        row(1, 4, our_claim(4)),
        row(2, 8, our_claim(8)),
        row(3, 16, [0xcc; 32]),
    ]);
    assert_eq!(game.respond(4), Ok(Response::Step(0, 4, true, vec![], vec![])));
}

#[test]
fn step_without_committing_ancestor_fails() {
    let game = game_with(vec![row(ROOT, 1, our_claim(1)), row(0, 21, [0xcc; 32])]);
    assert_eq!(game.respond(1), Err(GameError::InvalidClaimIndex));
    assert_eq!(game.find_prestate(1, 20), Err(GameError::InvalidClaimIndex));
}

#[test]
fn respond_reports_bad_indices_and_positions() {
    let game = game_with(vec![row(ROOT, 1, [0xaa; 32])]);
    assert_eq!(game.respond(1), Err(GameError::InvalidClaimIndex));
    assert_eq!(game.claim_data(5).err(), Some(GameError::InvalidClaimIndex));
    assert_eq!(game.claim_data(0).unwrap().position, 1);
    let deep = game_with(vec![row(ROOT, 32, [0xaa; 32])]);
    assert_eq!(deep.respond(0), Err(GameError::InvalidPosition));
    let mut short = game_with(vec![row(ROOT, 1, [0xaa; 32])]);
    short.trace.truncate(4);
    assert_eq!(short.respond(0), Err(GameError::InvalidTraceIndex));
}

#[test]
fn respond_leaves_the_game_unchanged_and_repeats() {
    let game = leaf_game([0xcc; 32]);
    let before = game.state.clone();
    let first = game.respond(4);
    let second = game.respond(4);
    assert_eq!(first, second);
    assert_eq!(game.state, before);
    assert_eq!(game.trace, alphabet_trace());
}

#[test]
fn push_claim_keeps_links() {
    let mut game = AlphabetGame::new([0; 20], 0, alphabet_trace());
    assert_eq!(game.push_claim(row(0, 1, [0; 32])), Err(GameError::InvalidClaimIndex));
    assert_eq!(game.push_claim(row(ROOT, 1, [0; 32])), Ok(()));
    assert_eq!(game.push_claim(row(1, 2, [0; 32])), Err(GameError::InvalidClaimIndex));
    assert_eq!(game.push_claim(row(0, 2, [0; 32])), Ok(()));
    assert_eq!(game.state.len(), 2);
}

#[test]
fn attack_targets() {
    assert_eq!(attack_target(1), AttackTarget::Move(2));
    assert_eq!(attack_target(5), AttackTarget::Move(10));
    assert_eq!(attack_target(15), AttackTarget::Move(30));
    assert_eq!(attack_target(16), AttackTarget::Step(None));
    assert_eq!(attack_target(20), AttackTarget::Step(Some(19)));
    assert_eq!(attack_target(31), AttackTarget::Step(Some(30)));
}

#[test]
fn leftmost_leaf_step_ignores_grandparent() {
    let game = game_with(vec![row(ROOT, 32, [0xaa; 32]), row(0, 16, [0xcc; 32])]);
    assert_eq!(game.respond(1), Ok(Response::Step(0, 1, true, vec![], vec![])));
}

#[test]
fn move_survives_uncomputable_grandparent() {
    let game = game_with(vec![row(ROOT, 32, [0xaa; 32]), row(0, 2, [0xcc; 32])]);
    assert_eq!(game.respond(1), Ok(Response::Move(true, our_claim(4), None)));
}
