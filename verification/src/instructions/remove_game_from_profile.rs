use vstd::prelude::*;

verus! {

use crate::addressing::{derive_profile_address, profile_address_of};
use crate::errors::GameError;
use crate::states::{Record, RecordV, UserProfile, UserProfileV};
use crate::store::RecordStore;
use crate::util::{bytes_eq, bytes_list_contains, clone_bytes};

/// The identities a removal touches: the signing user (whose own profile is
/// the only one the derivation can reach) and the address of the game
/// being removed.
pub struct RemoveGameFromProfile {
    pub user: Vec<u8>,
    pub game: Vec<u8>,
}

/// The saved-games list with every entry equal to `x` removed
/// (retain-filter semantics: all matching entries go, not just the first).
pub open spec fn games_without(s: Seq<Seq<u8>>, x: Seq<u8>) -> Seq<Seq<u8>>
    decreases s.len(),
{
    if s.len() == 0 {
        Seq::empty()
    } else if s.last() == x {
        games_without(s.drop_last(), x)
    } else {
        games_without(s.drop_last(), x).push(s.last())
    }
}

/// Removal never grows the list, removes every copy of `x`, and keeps only
/// entries that were already present.
pub proof fn lemma_games_without_props(s: Seq<Seq<u8>>, x: Seq<u8>)
    ensures
        games_without(s, x).len() <= s.len(),
        forall|k: int|
            0 <= k < games_without(s, x).len() ==> s.contains(#[trigger] games_without(s, x)[k])
                && games_without(s, x)[k] != x,
    decreases s.len(),
{
    if s.len() > 0 {
        let d = s.drop_last();
        lemma_games_without_props(d, x);
        assert forall|k: int|
            0 <= k < games_without(s, x).len() implies s.contains(
            #[trigger] games_without(s, x)[k],
        ) && games_without(s, x)[k] != x by {
            let g = games_without(s, x);
            if s.last() == x {
                assert(g[k] == games_without(d, x)[k]);
                assert(d.contains(games_without(d, x)[k]));
                let i = choose|i: int| 0 <= i < d.len() && d[i] == games_without(d, x)[k];
                assert(s[i] == g[k]);
            } else {
                if k < g.len() - 1 {
                    assert(g[k] == games_without(d, x)[k]);
                    assert(d.contains(games_without(d, x)[k]));
                    let i = choose|i: int| 0 <= i < d.len() && d[i] == games_without(d, x)[k];
                    assert(s[i] == g[k]);
                } else {
                    assert(g[k] == s.last());
                    assert(s[s.len() - 1] == g[k]);
                }
            }
        }
    }
}

/// A list without duplicates stays without duplicates after removal.
pub proof fn lemma_games_without_distinct(s: Seq<Seq<u8>>, x: Seq<u8>)
    requires
        forall|i: int, j: int| 0 <= i < j < s.len() ==> s[i] != s[j],
    ensures
        forall|i: int, j: int|
            0 <= i < j < games_without(s, x).len() ==> games_without(s, x)[i] != games_without(
                s,
                x,
            )[j],
    decreases s.len(),
{
    if s.len() > 0 {
        let d = s.drop_last();
        assert(forall|i: int, j: int| 0 <= i < j < d.len() ==> d[i] != d[j]);
        lemma_games_without_distinct(d, x);
        lemma_games_without_props(d, x);
        if s.last() != x {
            let g = games_without(s, x);
            assert forall|i: int, j: int| 0 <= i < j < g.len() implies g[i] != g[j] by {
                if j < g.len() - 1 {
                    assert(g[i] == games_without(d, x)[i]);
                    assert(g[j] == games_without(d, x)[j]);
                } else {
                    assert(g[j] == s.last());
                    assert(g[i] == games_without(d, x)[i]);
                    assert(d.contains(games_without(d, x)[i]));
                    let w = choose|w: int| 0 <= w < d.len() && d[w] == games_without(d, x)[i];
                    assert(s[w] != s[s.len() - 1]);
                }
            }
        }
    }
}

/// What removing a saved game does to the abstract state, and what it
/// returns: the caller's own profile keeps every saved game but the one
/// removed; a game that was never saved is reported, not ignored.
pub open spec fn remove_game_spec(m: Map<Seq<u8>, RecordV>, user: Seq<u8>, game_addr: Seq<u8>) -> (
    Map<Seq<u8>, RecordV>,
    Result<(), GameError>,
) {
    match profile_address_of(user) {
        None => (m, Err(GameError::AddressCollision)),
        Some((pa, _)) => {
            if !m.dom().contains(pa) {
                (m, Err(GameError::NotFound))
            } else {
                match m[pa] {
                    RecordV::Profile(p) => {
                        if !p.saved_games.contains(game_addr) {
                            (m, Err(GameError::GameNotSaved))
                        } else {
                            (
                                m.insert(
                                    pa,
                                    RecordV::Profile(
                                        UserProfileV {
                                            user: p.user,
                                            saved_games: games_without(p.saved_games, game_addr),
                                            bump: p.bump,
                                        },
                                    ),
                                ),
                                Ok(()),
                            )
                        }
                    },
                    _ => (m, Err(GameError::NotFound)),
                }
            }
        },
    }
}

/// Remove a game's address from the caller's own profile.
pub fn remove_game(store: &mut RecordStore, ctx: &RemoveGameFromProfile) -> (r: Result<
    (),
    GameError,
>)
    requires
        old(store).wf(),
        ctx.user@.len() == 32,
        ctx.game@.len() == 32,
    ensures
        final(store).wf(),
        crate::states::state_inv(old(store)@) ==> crate::states::state_inv(final(store)@),
        (final(store)@, r) == remove_game_spec(old(store)@, ctx.user@, ctx.game@),
{
    proof {
        if crate::states::state_inv(old(store)@) {
            crate::invariants::lemma_remove_game_preserves_inv(old(store)@, ctx.user@, ctx.game@);
        }
    }
    let (profile_addr, _bump) = match derive_profile_address(&ctx.user) {
        Ok(p) => p,
        Err(e) => {
            return Err(e);
        },
    };
    match store.load(&profile_addr) {
        Some(rec) => match rec {
            Record::Profile(p) => {
                if !bytes_list_contains(&p.saved_games, &ctx.game) {
                    return Err(GameError::GameNotSaved);
                }
            },
            _ => {
                return Err(GameError::NotFound);
            },
        },
        None => {
            return Err(GameError::NotFound);
        },
    }
    let (profile_key, profile_rec) = match store.take_record(&profile_addr) {
        Ok(p) => p,
        Err(_) => {
            proof {
                assert(false);
            }
            return Err(GameError::NotFound);
        },
    };
    let updated = match profile_rec {
        Record::Profile(p) => {
            let kept = retain_other_games(&p.saved_games, &ctx.game);
            UserProfile { user: p.user, saved_games: kept, bump: p.bump }
        },
        _ => {
            proof {
                assert(false);
            }
            return Err(GameError::NotFound);
        },
    };
    store.put_record(profile_key, Record::Profile(updated));
    proof {
        assert(store@ =~= remove_game_spec(old(store)@, ctx.user@, ctx.game@).0);
    }
    Ok(())
}

/// The entries of `l` whose bytes differ from `x`, in order.
fn retain_other_games(l: &Vec<Vec<u8>>, x: &Vec<u8>) -> (r: Vec<Vec<u8>>)
    ensures
        r@.map_values(|v: Vec<u8>| v@) == games_without(l@.map_values(|v: Vec<u8>| v@), x@),
{
    let ghost sv = l@.map_values(|v: Vec<u8>| v@);
    let mut kept: Vec<Vec<u8>> = Vec::new();
    let mut i: usize = 0;
    proof {
        assert(sv.take(0) =~= Seq::<Seq<u8>>::empty());
        assert(kept@.map_values(|v: Vec<u8>| v@) =~= Seq::<Seq<u8>>::empty());
    }
    while i < l.len()
        invariant
            0 <= i <= l@.len(),
            sv == l@.map_values(|v: Vec<u8>| v@),
            kept@.map_values(|v: Vec<u8>| v@) == games_without(sv.take(i as int), x@),
        decreases l@.len() - i,
    {
        proof {
            assert(sv.take(i as int + 1).drop_last() =~= sv.take(i as int));
            assert(sv.take(i as int + 1).last() == sv[i as int]);
        }
        if !bytes_eq(&l[i], x) {
            kept.push(clone_bytes(&l[i]));
            proof {
                assert(kept@.map_values(|v: Vec<u8>| v@) =~= games_without(
                    sv.take(i as int),
                    x@,
                ).push(sv[i as int]));
            }
        }
        i += 1;
    }
    proof {
        assert(sv.take(l@.len() as int) =~= sv);
    }
    kept
}

} // verus!
