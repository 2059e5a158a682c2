use vstd::prelude::*;

verus! {

use crate::addressing::{feed_address_of, game_address_of, profile_address_of, star_address_of};

/// The identifier buffer stored on a game record is exactly this many bytes;
/// shorter identifiers are zero-padded and their true length recorded.
pub const ID_LENGTH: usize = 32;

// ---- abstract values: what each record is, mathematically ----

#[verifier::ext_equal]
pub struct GameV {
    pub game_author: Seq<u8>,
    pub game_id: Seq<u8>,
    pub id_length: u8,
    pub alive_cells: Seq<u8>,
    pub iteration: u64,
    pub stars: u64,
    pub bump: u8,
}

#[verifier::ext_equal]
pub struct UserProfileV {
    pub user: Seq<u8>,
    pub saved_games: Seq<Seq<u8>>,
    pub bump: u8,
}

#[verifier::ext_equal]
pub struct StarV {
    pub star_user: Seq<u8>,
    pub game: Seq<u8>,
    pub bump: u8,
}

#[verifier::ext_equal]
pub struct FeedV {
    pub games: Seq<Seq<u8>>,
    pub bump: u8,
}

#[verifier::ext_equal]
pub enum RecordV {
    Profile(UserProfileV),
    Game(GameV),
    Feed(FeedV),
    Star(StarV),
}

// ---- the stored records ----

/// One game's configuration: its owner, its identifier (zero-padded to
/// `ID_LENGTH` with the true length beside it), the fixed bitmap of alive
/// cells, the never-advanced iteration counter, the star counter, and the
/// derivation bump persisted at creation.
pub struct Game {
    pub game_author: Vec<u8>,
    pub game_id: Vec<u8>,
    pub id_length: u8,
    pub alive_cells: Vec<u8>,
    pub iteration: u64,
    pub stars: u64,
    pub bump: u8,
}

impl View for Game {
    type V = GameV;

    open spec fn view(&self) -> GameV {
        GameV {
            game_author: self.game_author@,
            game_id: self.game_id@,
            id_length: self.id_length,
            alive_cells: self.alive_cells@,
            iteration: self.iteration,
            stars: self.stars,
            bump: self.bump,
        }
    }
}

impl Game {
    /// The grid is GRID_SIZE x GRID_SIZE cells, one bit each.
    pub const GRID_SIZE: usize = 64;

    /// The bitmap is exactly this many bytes (64 * 64 / 8).
    pub const MAX_ALIVE_CELLS: usize = 512;

    /// Serialized size: author + identifier + its length + bitmap +
    /// iteration + stars + bump.
    pub const LEN: usize = 32 + ID_LENGTH + 1 + 512 + 8 + 8 + 1;
}

/// One user's profile: the owning identity, the bounded list of saved game
/// addresses, and the derivation bump persisted at creation.
pub struct UserProfile {
    pub user: Vec<u8>,
    pub saved_games: Vec<Vec<u8>>,
    pub bump: u8,
}

impl View for UserProfile {
    type V = UserProfileV;

    open spec fn view(&self) -> UserProfileV {
        UserProfileV {
            user: self.user@,
            saved_games: self.saved_games@.map_values(|g: Vec<u8>| g@),
            bump: self.bump,
        }
    }
}

impl UserProfile {
    /// A profile never holds more saved games than this.
    pub const MAX_SAVED_GAMES: usize = 10;

    /// Serialized size: user + saved-game count + the address slots + bump.
    pub const LEN: usize = 32 + 4 + 32 * 10 + 1;
}

/// One user's star on one game, and the derivation bump persisted at
/// creation. At most one of these can exist per (user, game) pair, because
/// its address is derived from both.
pub struct Star {
    pub star_user: Vec<u8>,
    pub game: Vec<u8>,
    pub bump: u8,
}

impl View for Star {
    type V = StarV;

    open spec fn view(&self) -> StarV {
        StarV { star_user: self.star_user@, game: self.game@, bump: self.bump }
    }
}

impl Star {
    /// Serialized size: user + game + bump.
    pub const LEN: usize = 32 + 32 + 1;
}

/// The single global bounded list of publicly visible game addresses, and
/// the derivation bump persisted at creation.
pub struct Feed {
    pub games: Vec<Vec<u8>>,
    pub bump: u8,
}

impl View for Feed {
    type V = FeedV;

    open spec fn view(&self) -> FeedV {
        FeedV { games: self.games@.map_values(|g: Vec<u8>| g@), bump: self.bump }
    }
}

impl Feed {
    /// The feed never holds more game addresses than this.
    pub const MAX_GAMES: usize = 319;

    /// Serialized size: game count + the address slots + bump.
    pub const LEN: usize = 4 + 32 * 319 + 1;
}

/// Any record the store can hold.
pub enum Record {
    Profile(UserProfile),
    Game(Game),
    Feed(Feed),
    Star(Star),
}

impl View for Record {
    type V = RecordV;

    open spec fn view(&self) -> RecordV {
        match self {
            Record::Profile(p) => RecordV::Profile(p@),
            Record::Game(g) => RecordV::Game(g@),
            Record::Feed(f) => RecordV::Feed(f@),
            Record::Star(s) => RecordV::Star(s@),
        }
    }
}

// ---- per-record well-formedness ----

pub open spec fn game_wf(g: GameV) -> bool {
    &&& g.game_author.len() == 32
    &&& g.game_id.len() == ID_LENGTH
    &&& g.id_length <= ID_LENGTH
    &&& g.alive_cells.len() == Game::MAX_ALIVE_CELLS
}

pub open spec fn profile_wf(p: UserProfileV) -> bool {
    &&& p.user.len() == 32
    &&& p.saved_games.len() <= UserProfile::MAX_SAVED_GAMES
    &&& forall|i: int| 0 <= i < p.saved_games.len() ==> p.saved_games[i].len() == 32
    &&& forall|i: int, j: int|
        0 <= i < j < p.saved_games.len() ==> p.saved_games[i] != p.saved_games[j]
}

pub open spec fn star_wf(s: StarV) -> bool {
    &&& s.star_user.len() == 32
    &&& s.game.len() == 32
}

pub open spec fn feed_wf(f: FeedV) -> bool {
    f.games.len() <= Feed::MAX_GAMES
}

/// Each record is internally well formed and sits at the address its own
/// identities derive, carrying the bump of that derivation.
pub open spec fn record_wf_at(a: Seq<u8>, r: RecordV) -> bool {
    match r {
        RecordV::Profile(p) => profile_wf(p) && profile_address_of(p.user) == Some((a, p.bump)),
        RecordV::Game(g) => game_wf(g) && game_address_of(
            g.game_author,
            g.game_id.take(g.id_length as int),
        ) == Some((a, g.bump)),
        RecordV::Feed(f) => feed_wf(f) && feed_address_of() == Some((a, f.bump)),
        RecordV::Star(s) => star_wf(s) && star_address_of(s.star_user, s.game) == Some((
            a,
            s.bump,
        )),
    }
}

/// The state invariant: every record in the store is well formed and
/// address-consistent. It holds after every operation.
pub open spec fn state_inv(m: Map<Seq<u8>, RecordV>) -> bool {
    forall|a: Seq<u8>| #[trigger] m.dom().contains(a) ==> record_wf_at(a, m[a])
}

} // verus!
