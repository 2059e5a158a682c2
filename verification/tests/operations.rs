use game_of_life::addressing::{derive_game_address, derive_star_address, find_feed_authority};
use game_of_life::errors::GameError;
use game_of_life::instructions::add_game_to_profile::{add_game, AddGameToProfile};
use game_of_life::instructions::initialize_feed::InitializeFeed;
use game_of_life::instructions::initialize_game::InitializeGame;
use game_of_life::instructions::remove_game_from_profile::{remove_game, RemoveGameFromProfile};
use game_of_life::instructions::star_game::StarGameContext;
use game_of_life::instructions::unstar_game::RemoveStarredGame;
use game_of_life::instructions::user_profile::{initialize_user, InitializeUserProfile};
use game_of_life::states::{Game, Record, Star};
use game_of_life::store::RecordStore;
use game_of_life::{initialize, initialize_feed, star_game, unstar_game};

fn ident(b: u8) -> Vec<u8> {
    vec![b; 32]
}

fn grid() -> Vec<u8> {
    vec![0u8; 512]
}

fn setup_feed(store: &mut RecordStore) {
    let (feed_authority, authority_bump) = find_feed_authority().unwrap();
    initialize_feed(store, &InitializeFeed { feed_authority, authority_bump }).unwrap();
}

fn make_game(store: &mut RecordStore, owner: &[u8], id: &[u8]) -> Vec<u8> {
    let owner = owner.to_vec();
    let id = id.to_vec();
    initialize(store, &InitializeGame { game_owner: owner.clone() }, &id, &grid()).unwrap();
    derive_game_address(&owner, &id).unwrap().0
}

fn game_stars(store: &RecordStore, game_addr: &Vec<u8>) -> u64 {
    match store.load(game_addr) {
        Some(Record::Game(g)) => g.stars,
        _ => panic!("no game at that address"),
    }
}

fn feed_len(store: &RecordStore) -> usize {
    let (feed_addr, _) = game_of_life::addressing::derive_feed_address().unwrap();
    match store.load(&feed_addr) {
        Some(Record::Feed(f)) => f.games.len(),
        _ => panic!("no feed"),
    }
}

fn saved_games_len(store: &RecordStore, user: &Vec<u8>) -> usize {
    let (pa, _) = game_of_life::addressing::derive_profile_address(user).unwrap();
    match store.load(&pa) {
        Some(Record::Profile(p)) => p.saved_games.len(),
        _ => panic!("no profile"),
    }
}

#[test]
fn profile_creation_is_rejected_the_second_time() {
    let mut store = RecordStore::new();
    let user = ident(1);
    assert_eq!(initialize_user(&mut store, &InitializeUserProfile { user: user.clone() }), Ok(()));
    assert_eq!(
        initialize_user(&mut store, &InitializeUserProfile { user: user.clone() }),
        Err(GameError::AlreadyExists)
    );
    assert_eq!(saved_games_len(&store, &user), 0);
}

#[test]
fn game_creation_registers_on_the_feed() {
    let mut store = RecordStore::new();
    setup_feed(&mut store);
    assert_eq!(feed_len(&store), 0);
    let ga = make_game(&mut store, &ident(1), b"glider");
    assert_eq!(feed_len(&store), 1);
    assert!(store.contains(&ga));
    assert_eq!(game_stars(&store, &ga), 0);
}

#[test]
fn game_creation_without_a_feed_fails() {
    let mut store = RecordStore::new();
    let r = initialize(
        &mut store,
        &InitializeGame { game_owner: ident(1) },
        &b"glider".to_vec(),
        &grid(),
    );
    assert_eq!(r, Err(GameError::NotFound));
}

#[test]
fn game_creation_is_rejected_the_second_time() {
    let mut store = RecordStore::new();
    setup_feed(&mut store);
    make_game(&mut store, &ident(1), b"glider");
    let r = initialize(
        &mut store,
        &InitializeGame { game_owner: ident(1) },
        &b"glider".to_vec(),
        &grid(),
    );
    assert_eq!(r, Err(GameError::AlreadyExists));
    assert_eq!(feed_len(&store), 1);
}

#[test]
fn oversized_identifier_is_rejected() {
    let mut store = RecordStore::new();
    setup_feed(&mut store);
    let id = vec![7u8; 33];
    let r = initialize(&mut store, &InitializeGame { game_owner: ident(1) }, &id, &grid());
    assert_eq!(r, Err(GameError::IDTooLong));
    assert_eq!(feed_len(&store), 0);
}

#[test]
fn grid_boundary_is_exact() {
    let mut store = RecordStore::new();
    setup_feed(&mut store);
    let owner = ident(1);

    let r = initialize(
        &mut store,
        &InitializeGame { game_owner: owner.clone() },
        &b"a".to_vec(),
        &vec![0u8; 513],
    );
    assert_eq!(r, Err(GameError::InvalidGrid));
    let ga = derive_game_address(&owner, &b"a".to_vec()).unwrap().0;
    assert!(!store.contains(&ga));

    let r = initialize(
        &mut store,
        &InitializeGame { game_owner: owner.clone() },
        &b"a".to_vec(),
        &vec![0u8; 511],
    );
    assert_eq!(r, Err(GameError::InvalidGrid));

    let r = initialize(
        &mut store,
        &InitializeGame { game_owner: owner.clone() },
        &b"a".to_vec(),
        &vec![0u8; 512],
    );
    assert_eq!(r, Ok(()));
    assert!(store.contains(&ga));
}

#[test]
fn saved_games_add_and_remove() {
    let mut store = RecordStore::new();
    setup_feed(&mut store);
    let user = ident(1);
    initialize_user(&mut store, &InitializeUserProfile { user: user.clone() }).unwrap();
    let ga = make_game(&mut store, &user, b"glider");

    let ctx = AddGameToProfile { user: user.clone(), game: ga.clone() };
    assert_eq!(add_game(&mut store, &ctx), Ok(()));
    assert_eq!(saved_games_len(&store, &user), 1);
    assert_eq!(add_game(&mut store, &ctx), Err(GameError::GameAlreadySaved));
    assert_eq!(saved_games_len(&store, &user), 1);

    let rctx = RemoveGameFromProfile { user: user.clone(), game: ga.clone() };
    assert_eq!(remove_game(&mut store, &rctx), Ok(()));
    assert_eq!(saved_games_len(&store, &user), 0);
    assert_eq!(remove_game(&mut store, &rctx), Err(GameError::GameNotSaved));
}

#[test]
fn saved_games_capacity_is_ten() {
    let mut store = RecordStore::new();
    setup_feed(&mut store);
    let user = ident(1);
    initialize_user(&mut store, &InitializeUserProfile { user: user.clone() }).unwrap();
    let mut games = Vec::new();
    for i in 0..11u8 {
        games.push(make_game(&mut store, &user, &[b'g', i]));
    }
    for ga in games.iter().take(10) {
        let ctx = AddGameToProfile { user: user.clone(), game: ga.clone() };
        assert_eq!(add_game(&mut store, &ctx), Ok(()));
    }
    assert_eq!(saved_games_len(&store, &user), 10);
    let ctx = AddGameToProfile { user: user.clone(), game: games[10].clone() };
    assert_eq!(add_game(&mut store, &ctx), Err(GameError::TooManySavedGames));
    assert_eq!(saved_games_len(&store, &user), 10);

    // capacity frees up again after a removal
    let rctx = RemoveGameFromProfile { user: user.clone(), game: games[0].clone() };
    assert_eq!(remove_game(&mut store, &rctx), Ok(()));
    assert_eq!(add_game(&mut store, &ctx), Ok(()));
    assert_eq!(saved_games_len(&store, &user), 10);
}

#[test]
fn adding_an_absent_game_fails() {
    let mut store = RecordStore::new();
    let user = ident(1);
    initialize_user(&mut store, &InitializeUserProfile { user: user.clone() }).unwrap();
    let ctx = AddGameToProfile { user: user.clone(), game: ident(9) };
    assert_eq!(add_game(&mut store, &ctx), Err(GameError::NotFound));
}

#[test]
fn a_caller_cannot_reach_another_users_profile() {
    let mut store = RecordStore::new();
    setup_feed(&mut store);
    let owner = ident(1);
    let intruder = ident(2);
    initialize_user(&mut store, &InitializeUserProfile { user: owner.clone() }).unwrap();
    let ga = make_game(&mut store, &owner, b"glider");

    // the intruder's identity derives a different profile address, so the
    // call cannot even find a profile, let alone mutate the owner's
    let ctx = AddGameToProfile { user: intruder.clone(), game: ga.clone() };
    assert_eq!(add_game(&mut store, &ctx), Err(GameError::NotFound));
    assert_eq!(saved_games_len(&store, &owner), 0);

    // even with a profile of their own, the intruder only changes their own
    initialize_user(&mut store, &InitializeUserProfile { user: intruder.clone() }).unwrap();
    assert_eq!(add_game(&mut store, &ctx), Ok(()));
    assert_eq!(saved_games_len(&store, &intruder), 1);
    assert_eq!(saved_games_len(&store, &owner), 0);
}

#[test]
fn star_then_star_again_is_rejected() {
    let mut store = RecordStore::new();
    setup_feed(&mut store);
    let user = ident(2);
    let ga = make_game(&mut store, &ident(1), b"glider");

    let ctx = StarGameContext { star_user: user.clone(), game: ga.clone() };
    assert_eq!(star_game(&mut store, &ctx), Ok(()));
    assert_eq!(game_stars(&store, &ga), 1);
    assert_eq!(star_game(&mut store, &ctx), Err(GameError::AlreadyExists));
    assert_eq!(game_stars(&store, &ga), 1);
}

#[test]
fn star_then_unstar_restores_everything() {
    let mut store = RecordStore::new();
    setup_feed(&mut store);
    let user = ident(2);
    let ga = make_game(&mut store, &ident(1), b"glider");
    let (star_addr, _) = derive_star_address(&user, &ga).unwrap();

    let before = game_stars(&store, &ga);
    assert_eq!(star_game(&mut store, &StarGameContext { star_user: user.clone(), game: ga.clone() }), Ok(()));
    assert!(store.contains(&star_addr));
    assert_eq!(game_stars(&store, &ga), before + 1);

    assert_eq!(
        unstar_game(&mut store, &RemoveStarredGame { star_user: user.clone(), game: ga.clone() }),
        Ok(())
    );
    assert_eq!(game_stars(&store, &ga), before);
    assert!(!store.contains(&star_addr));
}

#[test]
fn unstar_without_a_star_fails() {
    let mut store = RecordStore::new();
    setup_feed(&mut store);
    let ga = make_game(&mut store, &ident(1), b"glider");
    let r = unstar_game(&mut store, &RemoveStarredGame { star_user: ident(2), game: ga });
    assert_eq!(r, Err(GameError::NotFound));
}

#[test]
fn star_of_an_absent_game_fails() {
    let mut store = RecordStore::new();
    let r = star_game(&mut store, &StarGameContext { star_user: ident(2), game: ident(9) });
    assert_eq!(r, Err(GameError::NotFound));
}

#[test]
fn star_counter_bounds_are_reported() {
    // assemble records directly through the store to reach the counter
    // bounds the operations themselves keep unreachable
    let mut store = RecordStore::new();
    let user = ident(2);
    let ga = ident(9);
    let game = Game {
        game_author: ident(1),
        game_id: vec![0u8; 32],
        id_length: 0,
        alive_cells: vec![0u8; 512],
        iteration: 0,
        stars: u64::MAX,
        bump: 0,
    };
    store.create(ga.clone(), Record::Game(game)).unwrap();
    let r = star_game(&mut store, &StarGameContext { star_user: user.clone(), game: ga.clone() });
    assert_eq!(r, Err(GameError::MaxStarsReached));

    let (star_addr, star_bump) = derive_star_address(&user, &ga).unwrap();
    store
        .create(
            star_addr,
            Record::Star(Star { star_user: user.clone(), game: ga.clone(), bump: star_bump }),
        )
        .unwrap();
    let zeroed = ident(10);
    let game = Game {
        game_author: ident(1),
        game_id: vec![0u8; 32],
        id_length: 0,
        alive_cells: vec![0u8; 512],
        iteration: 0,
        stars: 0,
        bump: 0,
    };
    store.create(zeroed.clone(), Record::Game(game)).unwrap();
    let (star_addr, star_bump) = derive_star_address(&user, &zeroed).unwrap();
    store
        .create(
            star_addr,
            Record::Star(Star { star_user: user.clone(), game: zeroed.clone(), bump: star_bump }),
        )
        .unwrap();
    let r = unstar_game(&mut store, &RemoveStarredGame { star_user: user, game: zeroed });
    assert_eq!(r, Err(GameError::MinStarsReached));
}

#[test]
fn removal_clears_every_matching_entry() {
    // assemble a profile that already carries duplicate entries, which the
    // add path itself refuses, to see the retain-filter semantics
    let mut store = RecordStore::new();
    let user = ident(1);
    let g = ident(8);
    let h = ident(9);
    let (pa, bump) = game_of_life::addressing::derive_profile_address(&user).unwrap();
    let profile = game_of_life::states::UserProfile {
        user: user.clone(),
        saved_games: vec![g.clone(), g.clone(), h.clone()],
        bump,
    };
    store.create(pa.clone(), Record::Profile(profile)).unwrap();

    let rctx = RemoveGameFromProfile { user: user.clone(), game: g.clone() };
    assert_eq!(remove_game(&mut store, &rctx), Ok(()));
    match store.load(&pa) {
        Some(Record::Profile(p)) => assert_eq!(p.saved_games, vec![h]),
        _ => panic!("no profile"),
    }
}

#[test]
fn game_identifier_is_padded_and_measured() {
    let mut store = RecordStore::new();
    setup_feed(&mut store);
    let owner = ident(1);
    let ga = make_game(&mut store, &owner, b"glider");
    match store.load(&ga) {
        Some(Record::Game(g)) => {
            assert_eq!(g.id_length, 6);
            assert_eq!(&g.game_id[0..6], b"glider");
            assert_eq!(&g.game_id[6..], vec![0u8; 26].as_slice());
            assert_eq!(g.game_author, owner);
            assert_eq!(g.iteration, 0);
            assert_eq!(g.stars, 0);
        }
        _ => panic!("no game"),
    }
}

#[test]
fn feed_rejects_a_forged_authority() {
    let mut store = RecordStore::new();
    let (_, authority_bump) = find_feed_authority().unwrap();
    let r = initialize_feed(
        &mut store,
        &InitializeFeed { feed_authority: ident(7), authority_bump },
    );
    assert_eq!(r, Err(GameError::InvalidAuthority));
}

#[test]
fn feed_initialization_is_rejected_the_second_time() {
    let mut store = RecordStore::new();
    setup_feed(&mut store);
    let (feed_authority, authority_bump) = find_feed_authority().unwrap();
    let r = initialize_feed(&mut store, &InitializeFeed { feed_authority, authority_bump });
    assert_eq!(r, Err(GameError::AlreadyExists));
}

#[test]
fn feed_boundary_is_exact() {
    let mut store = RecordStore::new();
    setup_feed(&mut store);
    let owner = ident(1);
    for i in 0..319u32 {
        let id = vec![b'g', (i & 0xff) as u8, (i >> 8) as u8];
        initialize(&mut store, &InitializeGame { game_owner: owner.clone() }, &id, &grid())
            .unwrap();
    }
    assert_eq!(feed_len(&store), 319);

    let id = b"one too many".to_vec();
    let r = initialize(&mut store, &InitializeGame { game_owner: owner.clone() }, &id, &grid());
    assert_eq!(r, Err(GameError::FeedFull));
    assert_eq!(feed_len(&store), 319);
    let ga = derive_game_address(&owner, &id).unwrap().0;
    assert!(!store.contains(&ga));
}
