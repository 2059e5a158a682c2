use game_of_life::errors::GameError;
use game_of_life::layout::{deserialize_game, deserialize_star, serialize_record};
use game_of_life::states::{Feed, Game, Record, Star, UserProfile};
use game_of_life::store::RecordStore;

fn ident(b: u8) -> Vec<u8> {
    vec![b; 32]
}

#[test]
fn store_create_load_mutate_close_round_trip() {
    let mut store = RecordStore::new();
    let addr = ident(9);
    let star = Star { star_user: ident(1), game: ident(2), bump: 3 };
    assert!(!store.contains(&addr));
    assert_eq!(store.create(addr.clone(), Record::Star(star)), Ok(()));
    assert!(store.contains(&addr));

    let star = Star { star_user: ident(1), game: ident(2), bump: 3 };
    assert_eq!(store.create(addr.clone(), Record::Star(star)), Err(GameError::AlreadyExists));

    match store.load(&addr) {
        Some(Record::Star(s)) => {
            assert_eq!(s.star_user, ident(1));
            assert_eq!(s.game, ident(2));
            assert_eq!(s.bump, 3);
        }
        _ => panic!("expected the star record back"),
    }

    let replacement = Star { star_user: ident(1), game: ident(2), bump: 4 };
    assert_eq!(store.mutate(&addr, Record::Star(replacement)), Ok(()));
    match store.load(&addr) {
        Some(Record::Star(s)) => assert_eq!(s.bump, 4),
        _ => panic!("expected the replaced record back"),
    }

    assert_eq!(store.close(&addr), Ok(()));
    assert!(!store.contains(&addr));
    assert!(store.load(&addr).is_none());
    assert_eq!(store.close(&addr), Err(GameError::NotFound));

    let replacement = Star { star_user: ident(1), game: ident(2), bump: 5 };
    assert_eq!(store.mutate(&addr, Record::Star(replacement)), Err(GameError::NotFound));
}

#[test]
fn star_record_layout_is_exact() {
    let star = Star { star_user: ident(1), game: ident(2), bump: 7 };
    let bytes = serialize_record(&Record::Star(star));
    assert_eq!(bytes.len(), Star::LEN);
    let mut expected = ident(1);
    expected.extend_from_slice(&ident(2));
    expected.push(7);
    assert_eq!(bytes, expected);
}

#[test]
fn game_record_layout_is_exact() {
    let game = Game {
        game_author: ident(3),
        game_id: ident(4),
        id_length: 5,
        alive_cells: vec![9u8; 512],
        iteration: 2,
        stars: 0x0102030405060708,
        bump: 1,
    };
    let bytes = serialize_record(&Record::Game(game));
    assert_eq!(bytes.len(), Game::LEN);
    assert_eq!(&bytes[0..32], ident(3).as_slice());
    assert_eq!(&bytes[32..64], ident(4).as_slice());
    assert_eq!(bytes[64], 5);
    assert_eq!(&bytes[65..577], vec![9u8; 512].as_slice());
    // counters are little-endian
    assert_eq!(&bytes[577..585], &[2, 0, 0, 0, 0, 0, 0, 0]);
    assert_eq!(&bytes[585..593], &[8, 7, 6, 5, 4, 3, 2, 1]);
    assert_eq!(bytes[593], 1);
}

#[test]
fn game_record_round_trips() {
    let game = Game {
        game_author: ident(3),
        game_id: ident(4),
        id_length: 31,
        alive_cells: vec![6u8; 512],
        iteration: 11,
        stars: 500,
        bump: 255,
    };
    let bytes = serialize_record(&Record::Game(game));
    let back = deserialize_game(&bytes).expect("a serialized game parses");
    assert_eq!(back.game_author, ident(3));
    assert_eq!(back.game_id, ident(4));
    assert_eq!(back.id_length, 31);
    assert_eq!(back.alive_cells, vec![6u8; 512]);
    assert_eq!(back.iteration, 11);
    assert_eq!(back.stars, 500);
    assert_eq!(back.bump, 255);
}

#[test]
fn star_record_round_trips() {
    let star = Star { star_user: ident(1), game: ident(2), bump: 7 };
    let bytes = serialize_record(&Record::Star(star));
    let back = deserialize_star(&bytes).expect("a serialized star parses");
    assert_eq!(back.star_user, ident(1));
    assert_eq!(back.game, ident(2));
    assert_eq!(back.bump, 7);
}

#[test]
fn malformed_record_bytes_do_not_parse() {
    assert!(deserialize_game(&vec![0u8; Game::LEN - 1]).is_none());
    assert!(deserialize_star(&vec![0u8; Star::LEN + 1]).is_none());
    // a recorded identifier length over the buffer width is rejected
    let mut bytes = vec![0u8; Game::LEN];
    bytes[64] = 33;
    assert!(deserialize_game(&bytes).is_none());
    bytes[64] = 32;
    assert!(deserialize_game(&bytes).is_some());
}

#[test]
fn profile_record_layout_is_exact() {
    let profile = UserProfile { user: ident(1), saved_games: vec![ident(2), ident(3)], bump: 9 };
    let bytes = serialize_record(&Record::Profile(profile));
    assert_eq!(bytes.len(), 32 + 4 + 64 + 1);
    assert!(bytes.len() <= UserProfile::LEN);
    assert_eq!(&bytes[0..32], ident(1).as_slice());
    assert_eq!(&bytes[32..36], &[2, 0, 0, 0]);
    assert_eq!(&bytes[36..68], ident(2).as_slice());
    assert_eq!(&bytes[68..100], ident(3).as_slice());
    assert_eq!(bytes[100], 9);
}

#[test]
fn feed_record_layout_is_exact() {
    let feed = Feed { games: vec![ident(5)], bump: 3 };
    let bytes = serialize_record(&Record::Feed(feed));
    assert_eq!(bytes.len(), 4 + 32 + 1);
    assert!(bytes.len() <= Feed::LEN);
    assert_eq!(&bytes[0..4], &[1, 0, 0, 0]);
    assert_eq!(&bytes[4..36], ident(5).as_slice());
    assert_eq!(bytes[36], 3);
}
