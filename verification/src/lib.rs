//! A shared catalog of cellular-automaton games held in independently
//! addressed records: per-user profiles, per-game configuration, one
//! bounded public feed, and a star relation between users and games.
//!
//! Every record's address is derived from a semantic label plus the
//! identities involved (`addressing`), so no record can be created, found
//! or mutated without re-supplying the inputs that produce its address —
//! that derivation is the authorization gate. Records live in a typed
//! store keyed by those addresses (`store`); each state transition
//! (`instructions`) checks identifier sizes, collection capacities and
//! record existence before committing, as one atomic step, and its
//! contract states the whole transition. The bounds and the
//! address-consistency of every record are invariants proved to hold after
//! any sequence of operations (`invariants`), and each record's byte
//! layout is pinned against its declared size (`layout`).
//!
//! The grids themselves are stored, never evolved: no stepping rule is
//! part of this catalog.

use vstd::prelude::*;

pub mod addressing;
pub mod errors;
pub mod instructions;
pub mod invariants;
pub mod layout;
pub mod states;
pub mod store;
pub mod util;

verus! {

use crate::errors::GameError;
use crate::store::RecordStore;

// The named entry points, as the record store's callers see them: each one
// forwards to its instruction and keeps its exact contract.

/// Create a game at its derived address and register it on the feed.
pub fn initialize(
    store: &mut RecordStore,
    ctx: &instructions::initialize_game::InitializeGame,
    game_id: &Vec<u8>,
    alive_cells: &Vec<u8>,
) -> (r: Result<(), GameError>)
    requires
        old(store).wf(),
        ctx.game_owner@.len() == 32,
    ensures
        final(store).wf(),
        crate::states::state_inv(old(store)@) ==> crate::states::state_inv(final(store)@),
        (final(store)@, r) == instructions::initialize_game::initialize_game_spec(
            old(store)@,
            ctx.game_owner@,
            game_id@,
            alive_cells@,
        ),
{
    instructions::initialize_game::initialize_game(store, ctx, game_id, alive_cells)
}

/// Create the single global feed after checking the presented authority.
pub fn initialize_feed(
    store: &mut RecordStore,
    ctx: &instructions::initialize_feed::InitializeFeed,
) -> (r: Result<(), GameError>)
    requires
        old(store).wf(),
    ensures
        final(store).wf(),
        crate::states::state_inv(old(store)@) ==> crate::states::state_inv(final(store)@),
        (final(store)@, r) == instructions::initialize_feed::initialize_feed_spec(
            old(store)@,
            ctx.feed_authority@,
            ctx.authority_bump,
        ),
{
    instructions::initialize_feed::initialize_feed(store, ctx)
}

/// Star a game: create the (user, game) star record and count the star.
pub fn star_game(store: &mut RecordStore, ctx: &instructions::star_game::StarGameContext) -> (r:
    Result<(), GameError>)
    requires
        old(store).wf(),
        ctx.star_user@.len() == 32,
        ctx.game@.len() == 32,
    ensures
        final(store).wf(),
        crate::states::state_inv(old(store)@) ==> crate::states::state_inv(final(store)@),
        (final(store)@, r) == instructions::star_game::star_game_spec(
            old(store)@,
            ctx.star_user@,
            ctx.game@,
        ),
{
    instructions::star_game::star_game(store, ctx)
}

/// Unstar a game: reclaim the (user, game) star record and uncount the star.
pub fn unstar_game(
    store: &mut RecordStore,
    ctx: &instructions::unstar_game::RemoveStarredGame,
) -> (r: Result<(), GameError>)
    requires
        old(store).wf(),
        ctx.star_user@.len() == 32,
        ctx.game@.len() == 32,
    ensures
        final(store).wf(),
        crate::states::state_inv(old(store)@) ==> crate::states::state_inv(final(store)@),
        (final(store)@, r) == instructions::unstar_game::unstar_game_spec(
            old(store)@,
            ctx.star_user@,
            ctx.game@,
        ),
{
    instructions::unstar_game::unstar_game(store, ctx)
}

} // verus!
