use vstd::prelude::*;

verus! {

/// Every way an operation on the catalog can fail.
///
/// Validation errors (`IDTooLong`, `InvalidGrid`) are caller-fixable;
/// capacity errors (`TooManySavedGames`, `FeedFull`, the star bounds) are
/// terminal for the call; `AlreadyExists` / `NotFound` and the
/// saved-game variants report a stale view of the record store; the
/// authority variants are authorization failures. `AddressCollision`
/// surfaces the theoretical failure of address derivation itself.
#[derive(Clone, Copy, Debug, PartialEq, Eq, Structural)]
pub enum GameError {
    IDTooLong,
    GameAlreadySaved,
    GameNotSaved,
    InvalidGrid,
    MinGamesReached,
    MaxStarsReached,
    MinStarsReached,
    FeedFull,
    InvalidAuthority,
    TooManySavedGames,
    AlreadyExists,
    NotFound,
    AddressCollision,
}

} // verus!
