use vstd::prelude::*;

verus! {

use crate::addressing::{derive_feed_address, derive_game_address, feed_address_of,
    game_address_of};
use crate::errors::GameError;
use crate::states::{Feed, FeedV, Game, GameV, Record, RecordV, ID_LENGTH};
use crate::store::RecordStore;
use crate::util::clone_bytes;

/// The identities a game creation touches: the signing owner, who becomes
/// the game's author.
pub struct InitializeGame {
    pub game_owner: Vec<u8>,
}

/// An identifier zero-padded to the fixed buffer width.
pub open spec fn padded_id(id: Seq<u8>) -> Seq<u8> {
    id + Seq::new((ID_LENGTH - id.len()) as nat, |i: int| 0u8)
}

/// What creating a game does to the abstract state, and what it returns.
/// The identifier and grid payload are validated first; the game record
/// must be creatable at its derived address; the feed must exist and have
/// room. Only then are the game record and the feed entry committed, as one
/// step.
pub open spec fn initialize_game_spec(
    m: Map<Seq<u8>, RecordV>,
    owner: Seq<u8>,
    game_id: Seq<u8>,
    alive_cells: Seq<u8>,
) -> (Map<Seq<u8>, RecordV>, Result<(), GameError>) {
    if game_id.len() > ID_LENGTH {
        (m, Err(GameError::IDTooLong))
    } else if alive_cells.len() != Game::MAX_ALIVE_CELLS {
        (m, Err(GameError::InvalidGrid))
    } else {
        match game_address_of(owner, game_id) {
            None => (m, Err(GameError::AddressCollision)),
            Some((ga, gbump)) => {
                if m.dom().contains(ga) {
                    (m, Err(GameError::AlreadyExists))
                } else {
                    match feed_address_of() {
                        None => (m, Err(GameError::AddressCollision)),
                        Some((fa, _)) => {
                            if !m.dom().contains(fa) {
                                (m, Err(GameError::NotFound))
                            } else {
                                match m[fa] {
                                    RecordV::Feed(f) => {
                                        if f.games.len() >= Feed::MAX_GAMES {
                                            (m, Err(GameError::FeedFull))
                                        } else {
                                            (
                                                m.insert(
                                                    ga,
                                                    RecordV::Game(
                                                        GameV {
                                                            game_author: owner,
                                                            game_id: padded_id(game_id),
                                                            id_length: game_id.len() as u8,
                                                            alive_cells,
                                                            iteration: 0,
                                                            stars: 0,
                                                            bump: gbump,
                                                        },
                                                    ),
                                                ).insert(
                                                    fa,
                                                    RecordV::Feed(
                                                        FeedV {
                                                            games: f.games.push(ga),
                                                            bump: f.bump,
                                                        },
                                                    ),
                                                ),
                                                Ok(()),
                                            )
                                        }
                                    },
                                    _ => (m, Err(GameError::NotFound)),
                                }
                            }
                        },
                    }
                }
            },
        }
    }
}

/// Create a game at the address derived from its owner and identifier, and
/// register it on the global feed.
pub fn initialize_game(
    store: &mut RecordStore,
    ctx: &InitializeGame,
    game_id: &Vec<u8>,
    alive_cells: &Vec<u8>,
) -> (r: Result<(), GameError>)
    requires
        old(store).wf(),
        ctx.game_owner@.len() == 32,
    ensures
        final(store).wf(),
        crate::states::state_inv(old(store)@) ==> crate::states::state_inv(final(store)@),
        (final(store)@, r) == initialize_game_spec(
            old(store)@,
            ctx.game_owner@,
            game_id@,
            alive_cells@,
        ),
{
    proof {
        if crate::states::state_inv(old(store)@) {
            crate::invariants::lemma_initialize_game_preserves_inv(
                old(store)@,
                ctx.game_owner@,
                game_id@,
                alive_cells@,
            );
        }
    }
    if game_id.len() > ID_LENGTH {
        return Err(GameError::IDTooLong);
    }
    if alive_cells.len() != Game::MAX_ALIVE_CELLS {
        return Err(GameError::InvalidGrid);
    }
    let (game_addr, game_bump) = match derive_game_address(&ctx.game_owner, game_id) {
        Ok(p) => p,
        Err(e) => {
            return Err(e);
        },
    };
    if store.contains(&game_addr) {
        return Err(GameError::AlreadyExists);
    }
    let (feed_addr, _feed_bump) = match derive_feed_address() {
        Ok(p) => p,
        Err(e) => {
            return Err(e);
        },
    };
    let feed_len: usize = match store.load(&feed_addr) {
        Some(rec) => match rec {
            Record::Feed(f) => f.games.len(),
            _ => {
                return Err(GameError::NotFound);
            },
        },
        None => {
            return Err(GameError::NotFound);
        },
    };
    if feed_len >= Feed::MAX_GAMES {
        return Err(GameError::FeedFull);
    }
    let game = Game {
        game_author: clone_bytes(&ctx.game_owner),
        game_id: pad_game_id(game_id),
        id_length: game_id.len() as u8,
        alive_cells: clone_bytes(alive_cells),
        iteration: 0,
        stars: 0,
        bump: game_bump,
    };
    let ghost ga_view = game_addr@;
    let feed_entry = clone_bytes(&game_addr);
    match store.create(game_addr, Record::Game(game)) {
        Ok(_) => {},
        Err(_) => {
            proof {
                assert(false);
            }
            return Err(GameError::AlreadyExists);
        },
    }
    let (feed_key, feed_rec) = match store.take_record(&feed_addr) {
        Ok(p) => p,
        Err(_) => {
            proof {
                assert(false);
            }
            return Err(GameError::NotFound);
        },
    };
    let updated = match feed_rec {
        Record::Feed(f) => {
            let mut games = f.games;
            games.push(feed_entry);
            Feed { games, bump: f.bump }
        },
        _ => {
            proof {
                assert(false);
            }
            return Err(GameError::NotFound);
        },
    };
    proof {
        let old_f = (match old(store)@[feed_addr@] {
            RecordV::Feed(f) => f,
            _ => arbitrary(),
        });
        assert(updated@.games =~= old_f.games.push(ga_view));
    }
    store.put_record(feed_key, Record::Feed(updated));
    proof {
        assert(store@ =~= initialize_game_spec(
            old(store)@,
            ctx.game_owner@,
            game_id@,
            alive_cells@,
        ).0);
    }
    Ok(())
}

/// Zero-pad an identifier to the fixed buffer width.
fn pad_game_id(id: &Vec<u8>) -> (r: Vec<u8>)
    requires
        id@.len() <= ID_LENGTH,
    ensures
        r@ == padded_id(id@),
        r@.len() == ID_LENGTH,
{
    let mut r = clone_bytes(id);
    while r.len() < ID_LENGTH
        invariant
            id@.len() <= ID_LENGTH,
            id@.len() <= r@.len() <= ID_LENGTH,
            forall|j: int| 0 <= j < id@.len() ==> r@[j] == id@[j],
            forall|j: int| id@.len() <= j < r@.len() ==> r@[j] == 0u8,
        decreases ID_LENGTH - r@.len(),
    {
        r.push(0u8);
    }
    proof {
        assert(r@ =~= padded_id(id@));
    }
    r
}

} // verus!
