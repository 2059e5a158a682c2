use vstd::prelude::*;

verus! {

use crate::addressing::{derive_star_address, star_address_of};
use crate::errors::GameError;
use crate::states::{Game, GameV, Record, RecordV, Star, StarV};
use crate::store::RecordStore;
use crate::util::clone_bytes;

/// The identities a star touches: the starring user and the address of the
/// game being starred.
pub struct StarGameContext {
    pub star_user: Vec<u8>,
    pub game: Vec<u8>,
}

/// What starring a game does to the abstract state, and what it returns: a
/// star record at the address derived from both identities, plus one more
/// star on the game. A second star by the same user on the same game finds
/// its derived address occupied and fails.
pub open spec fn star_game_spec(m: Map<Seq<u8>, RecordV>, user: Seq<u8>, game_addr: Seq<u8>) -> (
    Map<Seq<u8>, RecordV>,
    Result<(), GameError>,
) {
    if !m.dom().contains(game_addr) {
        (m, Err(GameError::NotFound))
    } else {
        match m[game_addr] {
            RecordV::Game(g) => match star_address_of(user, game_addr) {
                None => (m, Err(GameError::AddressCollision)),
                Some((sa, sbump)) => {
                    if m.dom().contains(sa) {
                        (m, Err(GameError::AlreadyExists))
                    } else if g.stars == u64::MAX {
                        (m, Err(GameError::MaxStarsReached))
                    } else {
                        (
                            m.insert(
                                sa,
                                RecordV::Star(StarV { star_user: user, game: game_addr, bump: sbump }),
                            ).insert(
                                game_addr,
                                RecordV::Game(
                                    GameV {
                                        game_author: g.game_author,
                                        game_id: g.game_id,
                                        id_length: g.id_length,
                                        alive_cells: g.alive_cells,
                                        iteration: g.iteration,
                                        stars: (g.stars + 1) as u64,
                                        bump: g.bump,
                                    },
                                ),
                            ),
                            Ok(()),
                        )
                    }
                },
            },
            _ => (m, Err(GameError::NotFound)),
        }
    }
}

/// Star a game: create the (user, game) star record and increment the
/// game's star counter, atomically. The caller need only prove identity of
/// the new star, not ownership of the game.
pub fn star_game(store: &mut RecordStore, ctx: &StarGameContext) -> (r: Result<(), GameError>)
    requires
        old(store).wf(),
        ctx.star_user@.len() == 32,
        ctx.game@.len() == 32,
    ensures
        final(store).wf(),
        crate::states::state_inv(old(store)@) ==> crate::states::state_inv(final(store)@),
        (final(store)@, r) == star_game_spec(old(store)@, ctx.star_user@, ctx.game@),
{
    proof {
        if crate::states::state_inv(old(store)@) {
            crate::invariants::lemma_star_game_preserves_inv(old(store)@, ctx.star_user@, ctx.game@);
        }
    }
    let stars: u64 = match store.load(&ctx.game) {
        Some(rec) => match rec {
            Record::Game(g) => g.stars,
            _ => {
                return Err(GameError::NotFound);
            },
        },
        None => {
            return Err(GameError::NotFound);
        },
    };
    let (star_addr, star_bump) = match derive_star_address(&ctx.star_user, &ctx.game) {
        Ok(p) => p,
        Err(e) => {
            return Err(e);
        },
    };
    if store.contains(&star_addr) {
        return Err(GameError::AlreadyExists);
    }
    if stars == u64::MAX {
        return Err(GameError::MaxStarsReached);
    }
    let (game_key, game_rec) = match store.take_record(&ctx.game) {
        Ok(p) => p,
        Err(_) => {
            proof {
                assert(false);
            }
            return Err(GameError::NotFound);
        },
    };
    let updated = match game_rec {
        Record::Game(g) => Game {
            game_author: g.game_author,
            game_id: g.game_id,
            id_length: g.id_length,
            alive_cells: g.alive_cells,
            iteration: g.iteration,
            stars: stars + 1,
            bump: g.bump,
        },
        _ => {
            proof {
                assert(false);
            }
            return Err(GameError::NotFound);
        },
    };
    store.put_record(game_key, Record::Game(updated));
    proof {
        assert(store@.dom() =~= old(store)@.dom());
    }
    let star = Star {
        star_user: clone_bytes(&ctx.star_user),
        game: clone_bytes(&ctx.game),
        bump: star_bump,
    };
    store.put_record(star_addr, Record::Star(star));
    proof {
        assert(store@ =~= star_game_spec(old(store)@, ctx.star_user@, ctx.game@).0);
    }
    Ok(())
}

} // verus!
