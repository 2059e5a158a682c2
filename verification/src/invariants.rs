use vstd::prelude::*;

verus! {

use crate::addressing::{feed_address_of, game_address_of, profile_address_of, star_address_of};
use crate::errors::GameError;
use crate::instructions::add_game_to_profile::add_game_spec;
use crate::instructions::initialize_feed::initialize_feed_spec;
use crate::instructions::initialize_game::{initialize_game_spec, padded_id};
use crate::instructions::remove_game_from_profile::{games_without, lemma_games_without_distinct,
    lemma_games_without_props, remove_game_spec};
use crate::instructions::star_game::star_game_spec;
use crate::instructions::unstar_game::unstar_game_spec;
use crate::instructions::user_profile::initialize_user_spec;
use crate::states::{record_wf_at, state_inv, Feed, Game, RecordV, UserProfile, ID_LENGTH};

// Each operation preserves the state invariant: every record stays well
// formed — no saved-games list over its bound, no feed over its bound, no
// duplicate saved game — and keeps sitting at the address its identities
// derive. Together with the operations' exact contracts this holds after
// any sequence of operations.

/// Inserting one well-formed record keeps the invariant.
proof fn lemma_inv_insert(m: Map<Seq<u8>, RecordV>, a: Seq<u8>, r: RecordV)
    requires
        state_inv(m),
        record_wf_at(a, r),
    ensures
        state_inv(m.insert(a, r)),
{
    assert forall|b: Seq<u8>| #[trigger] m.insert(a, r).dom().contains(b) implies record_wf_at(
        b,
        m.insert(a, r)[b],
    ) by {
        if b != a {
            assert(m.dom().contains(b));
        }
    }
}

/// Removing a record keeps the invariant.
proof fn lemma_inv_remove(m: Map<Seq<u8>, RecordV>, a: Seq<u8>)
    requires
        state_inv(m),
    ensures
        state_inv(m.remove(a)),
{
    assert forall|b: Seq<u8>| #[trigger] m.remove(a).dom().contains(b) implies record_wf_at(
        b,
        m.remove(a)[b],
    ) by {
        assert(m.dom().contains(b));
    }
}

pub proof fn lemma_initialize_user_preserves_inv(m: Map<Seq<u8>, RecordV>, user: Seq<u8>)
    requires
        state_inv(m),
        user.len() == 32,
    ensures
        state_inv(initialize_user_spec(m, user).0),
{
    match profile_address_of(user) {
        None => {},
        Some((a, bump)) => {
            if !m.dom().contains(a) {
                lemma_inv_insert(m, a, initialize_user_spec(m, user).0[a]);
            }
        },
    }
}

pub proof fn lemma_initialize_feed_preserves_inv(
    m: Map<Seq<u8>, RecordV>,
    authority: Seq<u8>,
    authority_bump: u8,
)
    requires
        state_inv(m),
    ensures
        state_inv(initialize_feed_spec(m, authority, authority_bump).0),
{
    let m1 = initialize_feed_spec(m, authority, authority_bump).0;
    match feed_address_of() {
        None => {},
        Some((a, bump)) => {
            if m1 != m {
                lemma_inv_insert(m, a, m1[a]);
            }
        },
    }
}

pub proof fn lemma_initialize_game_preserves_inv(
    m: Map<Seq<u8>, RecordV>,
    owner: Seq<u8>,
    game_id: Seq<u8>,
    alive_cells: Seq<u8>,
)
    requires
        state_inv(m),
        owner.len() == 32,
    ensures
        state_inv(initialize_game_spec(m, owner, game_id, alive_cells).0),
{
    let (m1, r) = initialize_game_spec(m, owner, game_id, alive_cells);
    if r is Ok {
        let (ga, gbump) = game_address_of(owner, game_id)->0;
        let (fa, _fb) = feed_address_of()->0;
        let f = m[fa]->Feed_0;
        let g = m1[ga]->Game_0;
        assert(padded_id(game_id).take(game_id.len() as int) =~= game_id);
        assert(record_wf_at(ga, m1[ga]));
        lemma_inv_insert(m, ga, m1[ga]);
        assert(record_wf_at(fa, m[fa]));
        lemma_inv_insert(m.insert(ga, m1[ga]), fa, RecordV::Feed(m1[fa]->Feed_0));
    }
}

pub proof fn lemma_add_game_preserves_inv(
    m: Map<Seq<u8>, RecordV>,
    user: Seq<u8>,
    game_addr: Seq<u8>,
)
    requires
        state_inv(m),
        game_addr.len() == 32,
    ensures
        state_inv(add_game_spec(m, user, game_addr).0),
{
    let (m1, r) = add_game_spec(m, user, game_addr);
    if r is Ok {
        let (pa, _b) = profile_address_of(user)->0;
        assert(record_wf_at(pa, m[pa]));
        lemma_inv_insert(m, pa, m1[pa]);
    }
}

pub proof fn lemma_remove_game_preserves_inv(
    m: Map<Seq<u8>, RecordV>,
    user: Seq<u8>,
    game_addr: Seq<u8>,
)
    requires
        state_inv(m),
    ensures
        state_inv(remove_game_spec(m, user, game_addr).0),
{
    let (m1, r) = remove_game_spec(m, user, game_addr);
    if r is Ok {
        let (pa, _b) = profile_address_of(user)->0;
        assert(record_wf_at(pa, m[pa]));
        let p = m[pa]->Profile_0;
        lemma_games_without_props(p.saved_games, game_addr);
        lemma_games_without_distinct(p.saved_games, game_addr);
        assert forall|k: int|
            0 <= k < games_without(p.saved_games, game_addr).len() implies (#[trigger] games_without(
            p.saved_games,
            game_addr,
        )[k]).len() == 32 by {
            let y = games_without(p.saved_games, game_addr)[k];
            assert(p.saved_games.contains(y));
            let i = choose|i: int| 0 <= i < p.saved_games.len() && p.saved_games[i] == y;
        }
        lemma_inv_insert(m, pa, m1[pa]);
    }
}

pub proof fn lemma_star_game_preserves_inv(
    m: Map<Seq<u8>, RecordV>,
    user: Seq<u8>,
    game_addr: Seq<u8>,
)
    requires
        state_inv(m),
        user.len() == 32,
        game_addr.len() == 32,
    ensures
        state_inv(star_game_spec(m, user, game_addr).0),
{
    let (m1, r) = star_game_spec(m, user, game_addr);
    if r is Ok {
        let (sa, _sb) = star_address_of(user, game_addr)->0;
        assert(record_wf_at(game_addr, m[game_addr]));
        lemma_inv_insert(m, sa, m1[sa]);
        lemma_inv_insert(m.insert(sa, m1[sa]), game_addr, m1[game_addr]);
    }
}

// ---- laws that relate several operations ----

/// Creating a profile for the same identity twice fails: after a successful
/// creation, repeating it fails with `AlreadyExists` and changes nothing,
/// so the first call's record is unaffected.
pub proof fn lemma_profile_create_once(m: Map<Seq<u8>, RecordV>, user: Seq<u8>)
    requires
        initialize_user_spec(m, user).1 is Ok,
    ensures
        ({
            let m1 = initialize_user_spec(m, user).0;
            initialize_user_spec(m1, user) == (
                m1,
                Err::<(), GameError>(GameError::AlreadyExists),
            )
        }),
{
}

/// At most one star can exist per (user, game) pair: after a successful
/// star, starring again without an intervening unstar fails with
/// `AlreadyExists` and changes nothing, so the game's star count stays as
/// the first call left it.
pub proof fn lemma_no_duplicate_star(m: Map<Seq<u8>, RecordV>, user: Seq<u8>, game_addr: Seq<u8>)
    requires
        star_game_spec(m, user, game_addr).1 is Ok,
    ensures
        ({
            let m1 = star_game_spec(m, user, game_addr).0;
            star_game_spec(m1, user, game_addr) == (
                m1,
                Err::<(), GameError>(GameError::AlreadyExists),
            )
        }),
{
    let m1 = star_game_spec(m, user, game_addr).0;
    let (sa, _sb) = star_address_of(user, game_addr)->0;
    assert(sa != game_addr);
    assert(m1.dom().contains(sa));
    assert(m1[game_addr] is Game);
}

/// Star then unstar is a round trip: after a successful star, the matching
/// unstar succeeds and restores the entire state — the star record is gone
/// and the game's star count is back to its pre-star value.
pub proof fn lemma_star_unstar_symmetry(
    m: Map<Seq<u8>, RecordV>,
    user: Seq<u8>,
    game_addr: Seq<u8>,
)
    requires
        star_game_spec(m, user, game_addr).1 is Ok,
    ensures
        ({
            let m1 = star_game_spec(m, user, game_addr).0;
            &&& unstar_game_spec(m1, user, game_addr).1 is Ok
            &&& unstar_game_spec(m1, user, game_addr).0 == m
        }),
{
    let m1 = star_game_spec(m, user, game_addr).0;
    let g = m[game_addr]->Game_0;
    let (sa, _sb) = star_address_of(user, game_addr)->0;
    assert(sa != game_addr);
    assert(m1[sa] is Star);
    assert(m1[game_addr] is Game);
    let g1 = m1[game_addr]->Game_0;
    assert(g1.stars == g.stars + 1);
    let m2 = unstar_game_spec(m1, user, game_addr).0;
    let g2 = m2[game_addr]->Game_0;
    assert(g2 =~= g);
    assert(RecordV::Game(g2) == m[game_addr]);
    assert(m2 =~= m);
}

/// The feed boundary: a successful creation finds the feed strictly under
/// its bound and appends exactly one entry; a full feed rejects any
/// creation that passed the earlier checks, with `FeedFull`, leaving the
/// state — the feed's length included — unchanged.
pub proof fn lemma_feed_boundary(
    m: Map<Seq<u8>, RecordV>,
    owner: Seq<u8>,
    game_id: Seq<u8>,
    alive_cells: Seq<u8>,
)
    ensures
        ({
            let (m1, r) = initialize_game_spec(m, owner, game_id, alive_cells);
            match feed_address_of() {
                Some((fa, _fb)) => {
                    if m.dom().contains(fa) {
                        match m[fa] {
                            RecordV::Feed(f) => {
                                &&& (r is Ok ==> f.games.len() < Feed::MAX_GAMES
                                    && m1[fa]->Feed_0.games.len() == f.games.len() + 1)
                                &&& (f.games.len() == Feed::MAX_GAMES && game_id.len()
                                    <= ID_LENGTH && alive_cells.len() == Game::MAX_ALIVE_CELLS
                                    && game_address_of(owner, game_id) is Some
                                    && !m.dom().contains((game_address_of(owner, game_id)->0).0)
                                    ==> (m1, r) == (m, Err::<(), GameError>(GameError::FeedFull)))
                            },
                            _ => r is Err,
                        }
                    } else {
                        r is Ok ==> false
                    }
                },
                None => r is Err,
            }
        }),
{
}

/// The grid boundary: a payload that is not exactly the bitmap size is
/// rejected with the grid error and no record is created; a payload of
/// exactly the bitmap size is never rejected for its size.
pub proof fn lemma_grid_boundary(
    m: Map<Seq<u8>, RecordV>,
    owner: Seq<u8>,
    game_id: Seq<u8>,
    alive_cells: Seq<u8>,
)
    ensures
        game_id.len() <= ID_LENGTH && alive_cells.len() != Game::MAX_ALIVE_CELLS
            ==> initialize_game_spec(m, owner, game_id, alive_cells) == (
            m,
            Err::<(), GameError>(GameError::InvalidGrid),
        ),
        alive_cells.len() == Game::MAX_ALIVE_CELLS ==> initialize_game_spec(
            m,
            owner,
            game_id,
            alive_cells,
        ).1 != Err::<(), GameError>(GameError::InvalidGrid),
{
}

/// Authorization by addressing: saving a game can only touch the record at
/// the caller's own derived profile address, so a caller whose derived
/// address differs from another user's cannot mutate that user's profile.
pub proof fn lemma_add_game_isolation(
    m: Map<Seq<u8>, RecordV>,
    caller: Seq<u8>,
    owner: Seq<u8>,
    game_addr: Seq<u8>,
)
    ensures
        ({
            let m1 = add_game_spec(m, caller, game_addr).0;
            match profile_address_of(caller) {
                Some((pc, _b)) => forall|b: Seq<u8>|
                    b != pc ==> (#[trigger] m1.dom().contains(b) <==> m.dom().contains(b)) && (
                    m.dom().contains(b) ==> m1[b] == m[b]),
                None => m1 == m,
            }
        }),
        ({
            let m1 = add_game_spec(m, caller, game_addr).0;
            match (profile_address_of(caller), profile_address_of(owner)) {
                (Some((pc, _b)), Some((po, _c))) => pc != po && m.dom().contains(po)
                    ==> m1.dom().contains(po) && m1[po] == m[po],
                _ => true,
            }
        }),
{
}

/// The saved-games capacity: in every reachable state each profile holds at
/// most the bound, and an add against a profile already at the bound fails
/// with `TooManySavedGames`, leaving the state — the list's length included
/// — unchanged.
pub proof fn lemma_saved_games_capacity(
    m: Map<Seq<u8>, RecordV>,
    user: Seq<u8>,
    game_addr: Seq<u8>,
)
    requires
        state_inv(m),
    ensures
        forall|a: Seq<u8>|
            #[trigger] m.dom().contains(a) && m[a] is Profile
                ==> m[a]->Profile_0.saved_games.len() <= UserProfile::MAX_SAVED_GAMES,
        ({
            let (m1, r) = add_game_spec(m, user, game_addr);
            match profile_address_of(user) {
                Some((pa, _b)) => m.dom().contains(pa) && m[pa] is Profile
                    && m[pa]->Profile_0.saved_games.len() == UserProfile::MAX_SAVED_GAMES
                    && m.dom().contains(game_addr) && m[game_addr] is Game ==> (m1, r) == (
                    m,
                    Err::<(), GameError>(GameError::TooManySavedGames),
                ),
                None => true,
            }
        }),
{
}

pub proof fn lemma_unstar_game_preserves_inv(
    m: Map<Seq<u8>, RecordV>,
    user: Seq<u8>,
    game_addr: Seq<u8>,
)
    requires
        state_inv(m),
    ensures
        state_inv(unstar_game_spec(m, user, game_addr).0),
{
    let (m1, r) = unstar_game_spec(m, user, game_addr);
    if r is Ok {
        let (sa, _sb) = star_address_of(user, game_addr)->0;
        assert(record_wf_at(game_addr, m[game_addr]));
        lemma_inv_remove(m, sa);
        lemma_inv_insert(m.remove(sa), game_addr, m1[game_addr]);
    }
}

} // verus!
