use game_of_life::addressing::{
    derive_feed_authority_address, derive_game_address, derive_profile_address,
    find_feed_authority, game_seed, user_seed,
};
use game_of_life::errors::GameError;

fn ident(b: u8) -> Vec<u8> {
    vec![b; 32]
}

#[test]
fn derive_is_deterministic() {
    let label = user_seed();
    let seeds = vec![ident(1)];
    let first = game_of_life::addressing::derive(&label, &seeds).unwrap();
    let second = game_of_life::addressing::derive(&label, &seeds).unwrap();
    assert_eq!(first.0, second.0);
    assert_eq!(first.1, second.1);
}

#[test]
fn derived_address_is_fresh_and_fixed_width() {
    let (addr, _bump) = game_of_life::addressing::derive(&user_seed(), &vec![ident(1)]).unwrap();
    assert_eq!(addr.len(), 32);
    assert_ne!(addr, ident(1));
    assert_ne!(addr, user_seed());
}

#[test]
fn derive_depends_on_label() {
    let seeds = vec![ident(1)];
    let (a, _) = game_of_life::addressing::derive(&user_seed(), &seeds).unwrap();
    let (b, _) = game_of_life::addressing::derive(&game_seed(), &seeds).unwrap();
    assert_ne!(a, b);
}

#[test]
fn derive_depends_on_seed_order() {
    let (a, _) = game_of_life::addressing::derive(&user_seed(), &vec![ident(1), ident(2)]).unwrap();
    let (b, _) = game_of_life::addressing::derive(&user_seed(), &vec![ident(2), ident(1)]).unwrap();
    assert_ne!(a, b);
}

#[test]
fn per_record_derivers_match_the_general_one() {
    let user = ident(5);
    let via_general = game_of_life::addressing::derive(&user_seed(), &vec![user.clone()]).unwrap();
    let via_profile = derive_profile_address(&user).unwrap();
    assert_eq!(via_general, via_profile);

    let id = vec![10u8, 11, 12];
    let via_general = game_of_life::addressing::derive(&game_seed(), &vec![user.clone(), id.clone()]).unwrap();
    let via_game = derive_game_address(&user, &id).unwrap();
    assert_eq!(via_general, via_game);
}

#[test]
fn too_many_seeds_is_a_surfaced_collision() {
    let seeds: Vec<Vec<u8>> = (0..16).map(|i| ident(i as u8)).collect();
    assert_eq!(game_of_life::addressing::derive(&user_seed(), &seeds), Err(GameError::AddressCollision));
}

#[test]
fn oversized_seed_is_a_surfaced_collision() {
    let seeds = vec![vec![1u8; 33]];
    assert_eq!(game_of_life::addressing::derive(&user_seed(), &seeds), Err(GameError::AddressCollision));
}

#[test]
fn feed_authority_rederives_to_itself() {
    let (authority, bump) = find_feed_authority().unwrap();
    assert_eq!(authority.len(), 32);
    let rederived = derive_feed_authority_address(bump).unwrap();
    assert_eq!(authority, rederived);
}

#[test]
fn feed_authority_under_another_bump_differs() {
    let (authority, bump) = find_feed_authority().unwrap();
    match derive_feed_authority_address(bump.wrapping_add(1)) {
        None => {}
        Some(other) => assert_ne!(other, authority),
    }
}
