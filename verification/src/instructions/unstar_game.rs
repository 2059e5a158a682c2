use vstd::prelude::*;

verus! {

use crate::addressing::{derive_star_address, star_address_of};
use crate::errors::GameError;
use crate::states::{Game, GameV, Record, RecordV};
use crate::store::RecordStore;

/// The identities an unstar touches: the user whose star is withdrawn and
/// the address of the starred game.
pub struct RemoveStarredGame {
    pub star_user: Vec<u8>,
    pub game: Vec<u8>,
}

/// What unstarring a game does to the abstract state, and what it returns:
/// the (user, game) star record is reclaimed and the game's star counter
/// decremented, atomically; without a pre-existing star the call fails and
/// changes nothing.
pub open spec fn unstar_game_spec(m: Map<Seq<u8>, RecordV>, user: Seq<u8>, game_addr: Seq<u8>) -> (
    Map<Seq<u8>, RecordV>,
    Result<(), GameError>,
) {
    match star_address_of(user, game_addr) {
        None => (m, Err(GameError::AddressCollision)),
        Some((sa, _)) => {
            if !m.dom().contains(sa) {
                (m, Err(GameError::NotFound))
            } else if !(m[sa] is Star) {
                (m, Err(GameError::NotFound))
            } else if !m.dom().contains(game_addr) {
                (m, Err(GameError::NotFound))
            } else {
                match m[game_addr] {
                    RecordV::Game(g) => {
                        if g.stars == 0 {
                            (m, Err(GameError::MinStarsReached))
                        } else {
                            (
                                m.remove(sa).insert(
                                    game_addr,
                                    RecordV::Game(
                                        GameV {
                                            game_author: g.game_author,
                                            game_id: g.game_id,
                                            id_length: g.id_length,
                                            alive_cells: g.alive_cells,
                                            iteration: g.iteration,
                                            stars: (g.stars - 1) as u64,
                                            bump: g.bump,
                                        },
                                    ),
                                ),
                                Ok(()),
                            )
                        }
                    },
                    _ => (m, Err(GameError::NotFound)),
                }
            }
        },
    }
}

/// Unstar a game: reclaim the (user, game) star record and decrement the
/// game's star counter, atomically.
pub fn unstar_game(store: &mut RecordStore, ctx: &RemoveStarredGame) -> (r: Result<(), GameError>)
    requires
        old(store).wf(),
        ctx.star_user@.len() == 32,
        ctx.game@.len() == 32,
    ensures
        final(store).wf(),
        crate::states::state_inv(old(store)@) ==> crate::states::state_inv(final(store)@),
        (final(store)@, r) == unstar_game_spec(old(store)@, ctx.star_user@, ctx.game@),
{
    proof {
        if crate::states::state_inv(old(store)@) {
            crate::invariants::lemma_unstar_game_preserves_inv(
                old(store)@,
                ctx.star_user@,
                ctx.game@,
            );
        }
    }
    let (star_addr, _star_bump) = match derive_star_address(&ctx.star_user, &ctx.game) {
        Ok(p) => p,
        Err(e) => {
            return Err(e);
        },
    };
    match store.load(&star_addr) {
        Some(rec) => match rec {
            Record::Star(_) => {},
            _ => {
                return Err(GameError::NotFound);
            },
        },
        None => {
            return Err(GameError::NotFound);
        },
    }
    let stars: u64 = match store.load(&ctx.game) {
        Some(rec) => match rec {
            Record::Game(g) => g.stars,
            _ => {
                return Err(GameError::NotFound);
            },
        },
        None => {
            return Err(GameError::NotFound);
        },
    };
    if stars == 0 {
        return Err(GameError::MinStarsReached);
    }
    proof {
        assert(star_addr@ != ctx.game@);
    }
    match store.take_record(&star_addr) {
        Ok(_) => {},
        Err(_) => {
            proof {
                assert(false);
            }
            return Err(GameError::NotFound);
        },
    }
    let (game_key, game_rec) = match store.take_record(&ctx.game) {
        Ok(p) => p,
        Err(_) => {
            proof {
                assert(false);
            }
            return Err(GameError::NotFound);
        },
    };
    let updated = match game_rec {
        Record::Game(g) => Game {
            game_author: g.game_author,
            game_id: g.game_id,
            id_length: g.id_length,
            alive_cells: g.alive_cells,
            iteration: g.iteration,
            stars: stars - 1,
            bump: g.bump,
        },
        _ => {
            proof {
                assert(false);
            }
            return Err(GameError::NotFound);
        },
    };
    store.put_record(game_key, Record::Game(updated));
    proof {
        assert(store@ =~= unstar_game_spec(old(store)@, ctx.star_user@, ctx.game@).0);
    }
    Ok(())
}

} // verus!
