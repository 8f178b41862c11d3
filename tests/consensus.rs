use comoona::{ConsensusError, LunarConsensus, LunarPhase, Validator};
use rand_core::{RngCore, SeedableRng};
use sha2::Digest;

fn draw(seed: [u8; 32], block_number: u64) -> u64 {
    let mut data = seed.to_vec();
    data.extend_from_slice(&block_number.to_le_bytes());
    let digest: [u8; 32] = sha2::Sha256::digest(&data).into();
    rand_chacha::ChaChaRng::from_seed(digest).next_u64()
}

#[test]
fn scenario_minimum_stake() {
    let mut c = LunarConsensus::new(500);
    assert_eq!(c.register_validator(Validator::new(1000, [0; 32])), Ok(()));
    assert_eq!(
        c.register_validator(Validator::new(100, [1; 32])),
        Err(ConsensusError::InsufficientStake)
    );
    assert_eq!(c.validators().len(), 1);
}

#[test]
fn registration_threshold_is_exact() {
    for s in [0u64, 1, 498, 499] {
        let mut c = LunarConsensus::new(500);
        assert_eq!(c.register_validator(Validator::new(s, [7; 32])), Err(ConsensusError::InsufficientStake));
        assert!(c.validators().is_empty());
    }
    for s in [500u64, 501, 1000, u64::MAX] {
        let mut c = LunarConsensus::new(500);
        assert_eq!(c.register_validator(Validator::new(s, [7; 32])), Ok(()));
        assert_eq!(c.validators().len(), 1);
        assert_eq!(c.select_with_draw(0).map(|v| v.get_stake()), Some(s));
    }
}

#[test]
fn scenario_phase_advance() {
    let mut c = LunarConsensus::new(500);
    c.update_phase(0);
    assert_eq!(c.current_phase(), LunarPhase::NewMoon);
    assert_eq!(c.current_phase().weight_halves(), 4);
    let seed = c.vrf_seed();
    c.update_phase(4);
    assert_eq!(c.current_phase(), LunarPhase::FullMoon);
    assert_eq!(c.current_phase().weight_halves(), 2);
    assert_eq!(c.vrf_seed(), seed);
}

#[test]
fn advance_phase_replaces_seed_only_at_cycle_start() {
    let mut c = LunarConsensus::new(1);
    c.advance_phase(3, [9; 32]);
    assert_eq!(c.current_phase(), LunarPhase::WaxingGibbous);
    assert_eq!(c.vrf_seed(), [0; 32]);
    c.advance_phase(16, [9; 32]);
    assert_eq!(c.current_phase(), LunarPhase::NewMoon);
    assert_eq!(c.vrf_seed(), [9; 32]);
}

#[test]
fn update_phase_draws_fresh_seed_at_cycle_start() {
    let mut c = LunarConsensus::new(1);
    c.update_phase(8);
    assert_ne!(c.vrf_seed(), [0; 32]);
    let seed = c.vrf_seed();
    c.update_phase(9);
    assert_eq!(c.vrf_seed(), seed);
}

#[test]
fn phase_follows_block_number() {
    let expected = [
        LunarPhase::NewMoon,
        LunarPhase::WaxingCrescent,
        LunarPhase::FirstQuarter,
        LunarPhase::WaxingGibbous,
        LunarPhase::FullMoon,
        LunarPhase::WaningGibbous,
        LunarPhase::LastQuarter,
        LunarPhase::WaningCrescent,
    ];
    for b in 0..24u64 {
        assert_eq!(LunarPhase::from_block_number(b), expected[(b % 8) as usize]);
    }
    assert_eq!(LunarPhase::from_block_number(u64::MAX), LunarPhase::WaningCrescent);
    assert_eq!(LunarPhase::WaxingCrescent.weight_halves(), 3);
}

#[test]
fn empty_registry_has_no_leader() {
    let c = LunarConsensus::new(10);
    for b in 0..10u64 {
        assert!(c.select_validator(b).is_none());
    }
    assert!(c.select_with_draw(0).is_none());
}

#[test]
fn new_moon_weights() {
    // weight 2: small stakes doubled, large stakes halved
    let mut c = LunarConsensus::new(500);
    assert_eq!(c.register_validator(Validator::new(600, [1; 32])), Ok(()));
    assert!(c.select_with_draw(1199).is_some());
    assert!(c.select_with_draw(1200).is_none());
    let mut c = LunarConsensus::new(500);
    assert_eq!(c.register_validator(Validator::new(1000, [1; 32])), Ok(()));
    assert!(c.select_with_draw(499).is_some());
    assert!(c.select_with_draw(500).is_none());
}

#[test]
fn intermediate_and_full_moon_weights() {
    let mut c = LunarConsensus::new(500);
    assert_eq!(c.register_validator(Validator::new(600, [1; 32])), Ok(()));
    assert_eq!(c.register_validator(Validator::new(1000, [2; 32])), Ok(()));
    c.advance_phase(1, [0; 32]);
    // 600 * 1.5 = 900, then 1000 / 1.5 = 666 (rounded down)
    assert_eq!(c.select_with_draw(899).unwrap().get_public_key(), [1; 32]);
    assert_eq!(c.select_with_draw(900).unwrap().get_public_key(), [2; 32]);
    assert_eq!(c.select_with_draw(1565).unwrap().get_public_key(), [2; 32]);
    assert!(c.select_with_draw(1566).is_none());
    c.advance_phase(4, [0; 32]);
    assert_eq!(c.select_with_draw(599).unwrap().get_public_key(), [1; 32]);
    assert_eq!(c.select_with_draw(1599).unwrap().get_public_key(), [2; 32]);
    assert!(c.select_with_draw(1600).is_none());
}

#[test]
fn huge_stake_weight_is_capped() {
    let mut c = LunarConsensus::new(u64::MAX);
    assert_eq!(c.register_validator(Validator::new(u64::MAX, [1; 32])), Ok(()));
    assert!(c.select_with_draw(u64::MAX - 1).is_some());
    assert!(c.select_with_draw(u64::MAX).is_none());
}

#[test]
fn validators_walk_in_key_order() {
    let mut c = LunarConsensus::new(1);
    assert_eq!(c.register_validator(Validator::new(10, [3; 32])), Ok(()));
    assert_eq!(c.register_validator(Validator::new(10, [1; 32])), Ok(()));
    assert_eq!(c.register_validator(Validator::new(10, [2; 32])), Ok(()));
    let keys: Vec<[u8; 32]> = c.validators().iter().map(|v| v.get_public_key()).collect();
    assert_eq!(keys, vec![[1; 32], [2; 32], [3; 32]]);
    assert_eq!(c.select_with_draw(0).unwrap().get_public_key(), [1; 32]);
}

#[test]
fn reregistration_overwrites() {
    let mut c = LunarConsensus::new(1);
    assert_eq!(c.register_validator(Validator::new(10, [5; 32])), Ok(()));
    assert_eq!(c.register_validator(Validator::new(70, [5; 32])), Ok(()));
    assert_eq!(c.validators().len(), 1);
    assert_eq!(c.validators()[0].get_stake(), 70);
}

#[test]
fn select_validator_uses_seeded_draw() {
    let d = draw([0; 32], 4);
    assert!(d < u64::MAX);
    let mut c = LunarConsensus::new(0);
    c.advance_phase(4, [1; 32]);
    assert_eq!(c.register_validator(Validator::new(d, [1; 32])), Ok(()));
    assert!(c.select_validator(4).is_none());
    let mut c = LunarConsensus::new(0);
    c.advance_phase(4, [1; 32]);
    assert_eq!(c.register_validator(Validator::new(d + 1, [1; 32])), Ok(()));
    assert!(c.select_validator(4).is_some());
}
