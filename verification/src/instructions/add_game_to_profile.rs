use vstd::prelude::*;

verus! {

use crate::addressing::{derive_profile_address, profile_address_of};
use crate::errors::GameError;
use crate::states::{Record, RecordV, UserProfile, UserProfileV};
use crate::store::RecordStore;
use crate::util::{bytes_list_contains, clone_bytes};

/// The identities a save touches: the signing user (whose own profile is
/// the only one the derivation can reach) and the address of the game
/// being saved.
pub struct AddGameToProfile {
    pub user: Vec<u8>,
    pub game: Vec<u8>,
}

/// What saving a game to a profile does to the abstract state, and what it
/// returns. The profile address is derived from the caller, so a caller
/// that is not the profile's owner cannot reach it; the capacity bound and
/// the duplicate check are enforced before anything is appended.
pub open spec fn add_game_spec(m: Map<Seq<u8>, RecordV>, user: Seq<u8>, game_addr: Seq<u8>) -> (
    Map<Seq<u8>, RecordV>,
    Result<(), GameError>,
) {
    match profile_address_of(user) {
        None => (m, Err(GameError::AddressCollision)),
        Some((pa, _)) => {
            if !m.dom().contains(pa) {
                (m, Err(GameError::NotFound))
            } else {
                match m[pa] {
                    RecordV::Profile(p) => {
                        if !m.dom().contains(game_addr) {
                            (m, Err(GameError::NotFound))
                        } else if !(m[game_addr] is Game) {
                            (m, Err(GameError::NotFound))
                        } else if p.saved_games.len() >= UserProfile::MAX_SAVED_GAMES {
                            (m, Err(GameError::TooManySavedGames))
                        } else if p.saved_games.contains(game_addr) {
                            (m, Err(GameError::GameAlreadySaved))
                        } else {
                            (
                                m.insert(
                                    pa,
                                    RecordV::Profile(
                                        UserProfileV {
                                            user: p.user,
                                            saved_games: p.saved_games.push(game_addr),
                                            bump: p.bump,
                                        },
                                    ),
                                ),
                                Ok(()),
                            )
                        }
                    },
                    _ => (m, Err(GameError::NotFound)),
                }
            }
        },
    }
}

/// Save a game's address onto the caller's own profile.
pub fn add_game(store: &mut RecordStore, ctx: &AddGameToProfile) -> (r: Result<(), GameError>)
    requires
        old(store).wf(),
        ctx.user@.len() == 32,
        ctx.game@.len() == 32,
    ensures
        final(store).wf(),
        crate::states::state_inv(old(store)@) ==> crate::states::state_inv(final(store)@),
        (final(store)@, r) == add_game_spec(old(store)@, ctx.user@, ctx.game@),
{
    proof {
        if crate::states::state_inv(old(store)@) {
            crate::invariants::lemma_add_game_preserves_inv(old(store)@, ctx.user@, ctx.game@);
        }
    }
    let (profile_addr, _bump) = match derive_profile_address(&ctx.user) {
        Ok(p) => p,
        Err(e) => {
            return Err(e);
        },
    };
    let (saved_len, already_saved) = match store.load(&profile_addr) {
        Some(rec) => match rec {
            Record::Profile(p) => (p.saved_games.len(), bytes_list_contains(
                &p.saved_games,
                &ctx.game,
            )),
            _ => {
                return Err(GameError::NotFound);
            },
        },
        None => {
            return Err(GameError::NotFound);
        },
    };
    match store.load(&ctx.game) {
        Some(rec) => match rec {
            Record::Game(_) => {},
            _ => {
                return Err(GameError::NotFound);
            },
        },
        None => {
            return Err(GameError::NotFound);
        },
    }
    if saved_len >= UserProfile::MAX_SAVED_GAMES {
        return Err(GameError::TooManySavedGames);
    }
    if already_saved {
        return Err(GameError::GameAlreadySaved);
    }
    let (profile_key, profile_rec) = match store.take_record(&profile_addr) {
        Ok(p) => p,
        Err(_) => {
            proof {
                assert(false);
            }
            return Err(GameError::NotFound);
        },
    };
    let updated = match profile_rec {
        Record::Profile(p) => {
            let mut saved = p.saved_games;
            saved.push(clone_bytes(&ctx.game));
            UserProfile { user: p.user, saved_games: saved, bump: p.bump }
        },
        _ => {
            proof {
                assert(false);
            }
            return Err(GameError::NotFound);
        },
    };
    proof {
        let old_p = (match old(store)@[profile_addr@] {
            RecordV::Profile(p) => p,
            _ => arbitrary(),
        });
        assert(updated@.saved_games =~= old_p.saved_games.push(ctx.game@));
    }
    store.put_record(profile_key, Record::Profile(updated));
    proof {
        assert(store@ =~= add_game_spec(old(store)@, ctx.user@, ctx.game@).0);
    }
    Ok(())
}

} // verus!
