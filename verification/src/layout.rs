use vstd::prelude::*;

verus! {

use crate::states::{feed_wf, game_wf, profile_wf, star_wf, Feed, FeedV, Game, GameV, Record,
    RecordV, Star, StarV, UserProfile, UserProfileV, ID_LENGTH};

// Each record type has a fixed-width byte layout: identities and buffers
// raw, counters little-endian, a bounded list as a little-endian count
// followed by its fixed-width entries. The size-accounting constants
// (`Game::LEN` and its peers) are proved against these layouts below, so
// the two cannot drift apart.

/// A 32-bit counter, little-endian.
pub open spec fn le_u32(x: u32) -> Seq<u8> {
    seq![
        (x & 0xff) as u8,
        ((x >> 8) & 0xff) as u8,
        ((x >> 16) & 0xff) as u8,
        ((x >> 24) & 0xff) as u8,
    ]
}

/// A 64-bit counter, little-endian.
pub open spec fn le_u64(x: u64) -> Seq<u8> {
    seq![
        (x & 0xff) as u8,
        ((x >> 8) & 0xff) as u8,
        ((x >> 16) & 0xff) as u8,
        ((x >> 24) & 0xff) as u8,
        ((x >> 32) & 0xff) as u8,
        ((x >> 40) & 0xff) as u8,
        ((x >> 48) & 0xff) as u8,
        ((x >> 56) & 0xff) as u8,
    ]
}

/// A list of addresses, one after the other.
pub open spec fn concat_addrs(s: Seq<Seq<u8>>) -> Seq<u8>
    decreases s.len(),
{
    if s.len() == 0 {
        Seq::empty()
    } else {
        concat_addrs(s.drop_last()) + s.last()
    }
}

/// With fixed-width entries the list's byte length is exact.
pub proof fn lemma_concat_addrs_len(s: Seq<Seq<u8>>)
    requires
        forall|i: int| 0 <= i < s.len() ==> s[i].len() == 32,
    ensures
        concat_addrs(s).len() == 32 * s.len(),
    decreases s.len(),
{
    if s.len() > 0 {
        assert(forall|i: int| 0 <= i < s.drop_last().len() ==> s.drop_last()[i].len() == 32);
        lemma_concat_addrs_len(s.drop_last());
        assert(s.last().len() == 32);
    }
}

/// A game record's bytes: author, padded identifier, its length, the
/// bitmap, the iteration and star counters, the bump.
pub open spec fn game_bytes(g: GameV) -> Seq<u8> {
    g.game_author + g.game_id + seq![g.id_length] + g.alive_cells + le_u64(g.iteration) + le_u64(
        g.stars,
    ) + seq![g.bump]
}

/// A profile record's bytes: user, saved-game count, the saved addresses,
/// the bump.
pub open spec fn profile_bytes(p: UserProfileV) -> Seq<u8> {
    p.user + le_u32(p.saved_games.len() as u32) + concat_addrs(p.saved_games) + seq![p.bump]
}

/// A star record's bytes: user, game, bump.
pub open spec fn star_bytes(s: StarV) -> Seq<u8> {
    s.star_user + s.game + seq![s.bump]
}

/// The feed record's bytes: game count, the game addresses, the bump.
pub open spec fn feed_bytes(f: FeedV) -> Seq<u8> {
    le_u32(f.games.len() as u32) + concat_addrs(f.games) + seq![f.bump]
}

/// Any record's bytes.
pub open spec fn record_bytes(r: RecordV) -> Seq<u8> {
    match r {
        RecordV::Profile(p) => profile_bytes(p),
        RecordV::Game(g) => game_bytes(g),
        RecordV::Feed(f) => feed_bytes(f),
        RecordV::Star(s) => star_bytes(s),
    }
}

/// Size accounting for the fixed-size records: the layout fills the
/// declared size exactly.
pub proof fn lemma_fixed_record_len(g: GameV, s: StarV)
    requires
        game_wf(g),
        star_wf(s),
    ensures
        game_bytes(g).len() == Game::LEN,
        star_bytes(s).len() == Star::LEN,
{
}

/// Size accounting for the profile: the layout never outgrows the declared
/// capacity, and each saved game costs exactly one address slot.
pub proof fn lemma_profile_record_len(p: UserProfileV)
    requires
        profile_wf(p),
    ensures
        profile_bytes(p).len() == 32 + 4 + 32 * p.saved_games.len() + 1,
        profile_bytes(p).len() <= UserProfile::LEN,
{
    lemma_concat_addrs_len(p.saved_games);
}

/// Size accounting for the feed: with fixed-width entries the layout never
/// outgrows the declared capacity.
pub proof fn lemma_feed_record_len(f: FeedV)
    requires
        feed_wf(f),
        forall|i: int| 0 <= i < f.games.len() ==> f.games[i].len() == 32,
    ensures
        feed_bytes(f).len() == 4 + 32 * f.games.len() + 1,
        feed_bytes(f).len() <= Feed::LEN,
{
    lemma_concat_addrs_len(f.games);
}

/// A 64-bit counter read back from its little-endian bytes.
pub open spec fn from_le_u64(b: Seq<u8>) -> u64
    recommends
        b.len() == 8,
{
    (b[0] as u64) | (b[1] as u64) << 8 | (b[2] as u64) << 16 | (b[3] as u64) << 24 | (b[4] as u64)
        << 32 | (b[5] as u64) << 40 | (b[6] as u64) << 48 | (b[7] as u64) << 56
}

/// Writing a counter and reading it back round-trips.
pub proof fn lemma_le_u64_round_trip(x: u64)
    ensures
        from_le_u64(le_u64(x)) == x,
{
    assert(((((x & 0xff) as u8) as u64) | ((((x >> 8) & 0xff) as u8) as u64) << 8 | ((((x >> 16)
        & 0xff) as u8) as u64) << 16 | ((((x >> 24) & 0xff) as u8) as u64) << 24 | ((((x >> 32)
        & 0xff) as u8) as u64) << 32 | ((((x >> 40) & 0xff) as u8) as u64) << 40 | ((((x >> 48)
        & 0xff) as u8) as u64) << 48 | ((((x >> 56) & 0xff) as u8) as u64) << 56) == x)
        by (bit_vector);
}

/// A 32-bit counter read back from its little-endian bytes.
pub open spec fn from_le_u32(b: Seq<u8>) -> u32
    recommends
        b.len() == 4,
{
    (b[0] as u32) | (b[1] as u32) << 8 | (b[2] as u32) << 16 | (b[3] as u32) << 24
}

/// Writing a count and reading it back round-trips.
pub proof fn lemma_le_u32_round_trip(x: u32)
    ensures
        from_le_u32(le_u32(x)) == x,
{
    assert(((((x & 0xff) as u8) as u32) | ((((x >> 8) & 0xff) as u8) as u32) << 8 | ((((x >> 16)
        & 0xff) as u8) as u32) << 16 | ((((x >> 24) & 0xff) as u8) as u32) << 24) == x)
        by (bit_vector);
}

/// Within a list of fixed-width entries, each entry sits at its own slot.
pub proof fn lemma_concat_addrs_slot(s: Seq<Seq<u8>>, i: int)
    requires
        forall|k: int| 0 <= k < s.len() ==> s[k].len() == 32,
        0 <= i < s.len(),
    ensures
        concat_addrs(s).subrange(32 * i, 32 * i + 32) == s[i],
    decreases s.len(),
{
    lemma_concat_addrs_len(s);
    let d = s.drop_last();
    assert(forall|k: int| 0 <= k < d.len() ==> d[k].len() == 32);
    lemma_concat_addrs_len(d);
    if i == s.len() - 1 {
        assert(concat_addrs(s).subrange(32 * i, 32 * i + 32) =~= s[i]);
    } else {
        lemma_concat_addrs_slot(d, i);
        assert(concat_addrs(s).subrange(32 * i, 32 * i + 32) =~= concat_addrs(d).subrange(
            32 * i,
            32 * i + 32,
        ));
    }
}

/// What a profile-record byte string denotes, if it is one: the owner, the
/// counted list of saved addresses, the bump.
pub open spec fn parse_profile(b: Seq<u8>) -> Option<UserProfileV> {
    if b.len() < 37 {
        None
    } else {
        let n = from_le_u32(b.subrange(32, 36)) as int;
        if b.len() != 37 + 32 * n {
            None
        } else {
            Some(
                UserProfileV {
                    user: b.subrange(0, 32),
                    saved_games: Seq::new(n as nat, |i: int| b.subrange(36 + 32 * i, 68 + 32 * i)),
                    bump: b.last(),
                },
            )
        }
    }
}

/// What the feed-record byte string denotes, if it is one: the counted list
/// of game addresses and the bump.
pub open spec fn parse_feed(b: Seq<u8>) -> Option<FeedV> {
    if b.len() < 5 {
        None
    } else {
        let n = from_le_u32(b.subrange(0, 4)) as int;
        if b.len() != 5 + 32 * n {
            None
        } else {
            Some(
                FeedV {
                    games: Seq::new(n as nat, |i: int| b.subrange(4 + 32 * i, 36 + 32 * i)),
                    bump: b.last(),
                },
            )
        }
    }
}

/// The layout loses nothing: a well-formed profile record serializes to
/// bytes that parse back to the very same record.
pub proof fn lemma_profile_round_trip(p: UserProfileV)
    requires
        profile_wf(p),
    ensures
        parse_profile(profile_bytes(p)) == Some(p),
{
    let b = profile_bytes(p);
    let s = p.saved_games;
    lemma_concat_addrs_len(s);
    lemma_le_u32_round_trip(s.len() as u32);
    assert(b.subrange(32, 36) =~= le_u32(s.len() as u32));
    assert(from_le_u32(b.subrange(32, 36)) as int == s.len());
    assert(b.subrange(0, 32) =~= p.user);
    assert(b.last() == p.bump);
    assert forall|i: int| 0 <= i < s.len() implies b.subrange(36 + 32 * i, 68 + 32 * i)
        == s[i] by {
        lemma_concat_addrs_slot(s, i);
        assert(b.subrange(36 + 32 * i, 68 + 32 * i) =~= concat_addrs(s).subrange(
            32 * i,
            32 * i + 32,
        ));
    }
    assert(parse_profile(b)->0.saved_games =~= s);
    assert(parse_profile(b)->0 =~= p);
}

/// The layout loses nothing: a well-formed feed record with fixed-width
/// entries serializes to bytes that parse back to the very same record.
pub proof fn lemma_feed_round_trip(f: FeedV)
    requires
        feed_wf(f),
        forall|i: int| 0 <= i < f.games.len() ==> f.games[i].len() == 32,
    ensures
        parse_feed(feed_bytes(f)) == Some(f),
{
    let b = feed_bytes(f);
    let s = f.games;
    lemma_concat_addrs_len(s);
    lemma_le_u32_round_trip(s.len() as u32);
    assert(b.subrange(0, 4) =~= le_u32(s.len() as u32));
    assert(from_le_u32(b.subrange(0, 4)) as int == s.len());
    assert(b.last() == f.bump);
    assert forall|i: int| 0 <= i < s.len() implies b.subrange(4 + 32 * i, 36 + 32 * i)
        == s[i] by {
        lemma_concat_addrs_slot(s, i);
        assert(b.subrange(4 + 32 * i, 36 + 32 * i) =~= concat_addrs(s).subrange(
            32 * i,
            32 * i + 32,
        ));
    }
    assert(parse_feed(b)->0.games =~= s);
    assert(parse_feed(b)->0 =~= f);
}

/// What a game-record byte string denotes, if it is one: the layout read
/// back field by field. Only the length and the recorded identifier length
/// can disqualify a byte string.
pub open spec fn parse_game(b: Seq<u8>) -> Option<GameV> {
    if b.len() != Game::LEN || b[64] > ID_LENGTH as u8 {
        None
    } else {
        Some(
            GameV {
                game_author: b.subrange(0, 32),
                game_id: b.subrange(32, 64),
                id_length: b[64],
                alive_cells: b.subrange(65, 577),
                iteration: from_le_u64(b.subrange(577, 585)),
                stars: from_le_u64(b.subrange(585, 593)),
                bump: b[593],
            },
        )
    }
}

/// What a star-record byte string denotes, if it is one.
pub open spec fn parse_star(b: Seq<u8>) -> Option<StarV> {
    if b.len() != Star::LEN {
        None
    } else {
        Some(StarV { star_user: b.subrange(0, 32), game: b.subrange(32, 64), bump: b[64] })
    }
}

/// The layout loses nothing: a well-formed game record serializes to bytes
/// that parse back to the very same record.
pub proof fn lemma_game_round_trip(g: GameV)
    requires
        game_wf(g),
    ensures
        parse_game(game_bytes(g)) == Some(g),
{
    let b = game_bytes(g);
    assert(b.len() == Game::LEN);
    assert(b.subrange(0, 32) =~= g.game_author);
    assert(b.subrange(32, 64) =~= g.game_id);
    assert(b[64] == g.id_length);
    assert(b.subrange(65, 577) =~= g.alive_cells);
    assert(b.subrange(577, 585) =~= le_u64(g.iteration));
    assert(b.subrange(585, 593) =~= le_u64(g.stars));
    assert(b[593] == g.bump);
    lemma_le_u64_round_trip(g.iteration);
    lemma_le_u64_round_trip(g.stars);
    assert(parse_game(b)->0 =~= g);
}

/// The layout loses nothing: a well-formed star record serializes to bytes
/// that parse back to the very same record.
pub proof fn lemma_star_round_trip(s: StarV)
    requires
        star_wf(s),
    ensures
        parse_star(star_bytes(s)) == Some(s),
{
    let b = star_bytes(s);
    assert(b.subrange(0, 32) =~= s.star_user);
    assert(b.subrange(32, 64) =~= s.game);
    assert(b[64] == s.bump);
    assert(parse_star(b)->0 =~= s);
}

fn push_bytes(out: &mut Vec<u8>, b: &Vec<u8>)
    ensures
        final(out)@ == old(out)@ + b@,
{
    let mut i: usize = 0;
    while i < b.len()
        invariant
            0 <= i <= b@.len(),
            out@ == old(out)@ + b@.take(i as int),
        decreases b@.len() - i,
    {
        out.push(b[i]);
        proof {
            assert(old(out)@ + b@.take(i as int + 1) =~= (old(out)@ + b@.take(i as int)).push(
                b@[i as int],
            ));
        }
        i += 1;
    }
    proof {
        assert(b@.take(b@.len() as int) =~= b@);
    }
}

fn push_le_u32(out: &mut Vec<u8>, x: u32)
    ensures
        final(out)@ == old(out)@ + le_u32(x),
{
    proof {
        assert((x & 0xff) < 256 && ((x >> 8) & 0xff) < 256 && ((x >> 16) & 0xff) < 256 && ((x
            >> 24) & 0xff) < 256) by (bit_vector);
    }
    out.push((x & 0xff) as u8);
    out.push(((x >> 8) & 0xff) as u8);
    out.push(((x >> 16) & 0xff) as u8);
    out.push(((x >> 24) & 0xff) as u8);
    proof {
        assert(out@ =~= old(out)@ + le_u32(x));
    }
}

fn push_le_u64(out: &mut Vec<u8>, x: u64)
    ensures
        final(out)@ == old(out)@ + le_u64(x),
{
    proof {
        assert((x & 0xff) < 256 && ((x >> 8) & 0xff) < 256 && ((x >> 16) & 0xff) < 256 && ((x
            >> 24) & 0xff) < 256 && ((x >> 32) & 0xff) < 256 && ((x >> 40) & 0xff) < 256 && ((x
            >> 48) & 0xff) < 256 && ((x >> 56) & 0xff) < 256) by (bit_vector);
    }
    out.push((x & 0xff) as u8);
    out.push(((x >> 8) & 0xff) as u8);
    out.push(((x >> 16) & 0xff) as u8);
    out.push(((x >> 24) & 0xff) as u8);
    out.push(((x >> 32) & 0xff) as u8);
    out.push(((x >> 40) & 0xff) as u8);
    out.push(((x >> 48) & 0xff) as u8);
    out.push(((x >> 56) & 0xff) as u8);
    proof {
        assert(out@ =~= old(out)@ + le_u64(x));
    }
}

fn push_addr_list(out: &mut Vec<u8>, l: &Vec<Vec<u8>>)
    ensures
        final(out)@ == old(out)@ + concat_addrs(l@.map_values(|v: Vec<u8>| v@)),
{
    let ghost sv = l@.map_values(|v: Vec<u8>| v@);
    let mut i: usize = 0;
    proof {
        assert(concat_addrs(sv.take(0)) =~= Seq::<u8>::empty());
        assert(out@ =~= old(out)@ + concat_addrs(sv.take(0)));
    }
    while i < l.len()
        invariant
            0 <= i <= l@.len(),
            sv == l@.map_values(|v: Vec<u8>| v@),
            out@ == old(out)@ + concat_addrs(sv.take(i as int)),
        decreases l@.len() - i,
    {
        push_bytes(out, &l[i]);
        proof {
            assert(sv.take(i as int + 1).drop_last() =~= sv.take(i as int));
            assert(sv.take(i as int + 1).last() == sv[i as int]);
            assert(old(out)@ + concat_addrs(sv.take(i as int + 1)) =~= (old(out)@ + concat_addrs(
                sv.take(i as int),
            )) + sv[i as int]);
        }
        i += 1;
    }
    proof {
        assert(sv.take(l@.len() as int) =~= sv);
    }
}

/// Whether a record's lists are within their declared capacities, so its
/// layout fits the declared size.
pub open spec fn record_fits(r: RecordV) -> bool {
    match r {
        RecordV::Profile(p) => p.saved_games.len() <= UserProfile::MAX_SAVED_GAMES,
        RecordV::Feed(f) => f.games.len() <= Feed::MAX_GAMES,
        _ => true,
    }
}

fn read_bytes(b: &Vec<u8>, start: usize, end: usize) -> (r: Vec<u8>)
    requires
        start <= end <= b@.len(),
    ensures
        r@ == b@.subrange(start as int, end as int),
{
    let mut r: Vec<u8> = Vec::new();
    let mut i: usize = start;
    while i < end
        invariant
            start <= i <= end <= b@.len(),
            r@ == b@.subrange(start as int, i as int),
        decreases end - i,
    {
        r.push(b[i]);
        proof {
            assert(b@.subrange(start as int, i as int + 1) =~= b@.subrange(
                start as int,
                i as int,
            ).push(b@[i as int]));
        }
        i += 1;
    }
    r
}

fn read_le_u64(b: &Vec<u8>, start: usize) -> (r: u64)
    requires
        start + 8 <= b@.len(),
    ensures
        r == from_le_u64(b@.subrange(start as int, start as int + 8)),
{
    let n = b.len();
    proof {
        assert(start + 8 <= n);
    }
    let r = (b[start] as u64) | ((b[start + 1] as u64) << 8) | ((b[start + 2] as u64) << 16) | ((
    b[start + 3] as u64) << 24) | ((b[start + 4] as u64) << 32) | ((b[start + 5] as u64) << 40)
        | ((b[start + 6] as u64) << 48) | ((b[start + 7] as u64) << 56);
    proof {
        let s = b@.subrange(start as int, start as int + 8);
        assert(s[0] == b@[start as int] && s[1] == b@[start as int + 1] && s[2] == b@[
            start as int + 2] && s[3] == b@[start as int + 3] && s[4] == b@[start as int + 4]
            && s[5] == b@[start as int + 5] && s[6] == b@[start as int + 6] && s[7] == b@[
            start as int + 7]);
    }
    r
}

/// Read a game record back from its fixed layout. Only a wrong length or
/// an identifier length over the buffer width disqualifies a byte string.
pub fn deserialize_game(bytes: &Vec<u8>) -> (r: Option<Game>)
    ensures
        (match r {
            Some(g) => parse_game(bytes@) == Some(g@),
            None => parse_game(bytes@) is None,
        }),
{
    if bytes.len() != Game::LEN {
        return None;
    }
    let id_length = bytes[64];
    if id_length as usize > ID_LENGTH {
        return None;
    }
    let g = Game {
        game_author: read_bytes(bytes, 0, 32),
        game_id: read_bytes(bytes, 32, 64),
        id_length,
        alive_cells: read_bytes(bytes, 65, 577),
        iteration: read_le_u64(bytes, 577),
        stars: read_le_u64(bytes, 585),
        bump: bytes[593],
    };
    proof {
        assert(parse_game(bytes@)->0 =~= g@);
    }
    Some(g)
}

/// Read a star record back from its fixed layout. Only a wrong length
/// disqualifies a byte string.
pub fn deserialize_star(bytes: &Vec<u8>) -> (r: Option<Star>)
    ensures
        (match r {
            Some(s) => parse_star(bytes@) == Some(s@),
            None => parse_star(bytes@) is None,
        }),
{
    if bytes.len() != Star::LEN {
        return None;
    }
    let s = Star {
        star_user: read_bytes(bytes, 0, 32),
        game: read_bytes(bytes, 32, 64),
        bump: bytes[64],
    };
    proof {
        assert(parse_star(bytes@)->0 =~= s@);
    }
    Some(s)
}

/// Serialize a record into its fixed layout.
pub fn serialize_record(r: &Record) -> (out: Vec<u8>)
    requires
        record_fits(r@),
    ensures
        out@ == record_bytes(r@),
{
    let mut out: Vec<u8> = Vec::new();
    match r {
        Record::Profile(p) => {
            push_bytes(&mut out, &p.user);
            push_le_u32(&mut out, p.saved_games.len() as u32);
            push_addr_list(&mut out, &p.saved_games);
            out.push(p.bump);
            proof {
                assert(out@ =~= record_bytes(r@));
            }
        },
        Record::Game(g) => {
            push_bytes(&mut out, &g.game_author);
            push_bytes(&mut out, &g.game_id);
            out.push(g.id_length);
            push_bytes(&mut out, &g.alive_cells);
            push_le_u64(&mut out, g.iteration);
            push_le_u64(&mut out, g.stars);
            out.push(g.bump);
            proof {
                assert(out@ =~= record_bytes(r@));
            }
        },
        Record::Feed(f) => {
            push_le_u32(&mut out, f.games.len() as u32);
            push_addr_list(&mut out, &f.games);
            out.push(f.bump);
            proof {
                assert(out@ =~= record_bytes(r@));
            }
        },
        Record::Star(s) => {
            push_bytes(&mut out, &s.star_user);
            push_bytes(&mut out, &s.game);
            out.push(s.bump);
            proof {
                assert(out@ =~= record_bytes(r@));
            }
        },
    }
    out
}

} // verus!
