use vstd::prelude::*;

verus! {

use crate::errors::GameError;

// Every record lives at an address derived from a semantic label plus the
// identities involved, so a record can only be reached by re-supplying the
// inputs that created it. The derivation itself is done by the Solana
// program-derived-address scheme that anchor_lang re-exports; the two spec
// names below stand for its results, which are functions of the program id
// and the seed list alone.

/// What `Pubkey::try_find_program_address` returns for a program id and a
/// seed list: the derived address together with its bump seed, or `None`
/// when the seed list is over the scheme's limits or no bump yields a
/// valid address.
pub uninterp spec fn pda_of(program_id: Seq<u8>, seeds: Seq<Seq<u8>>) -> Option<(Seq<u8>, u8)>;

/// What `Pubkey::create_program_address` returns for a program id and a seed
/// list (the bump already appended as the last seed): the derived address,
/// or `None` when the seeds are over the scheme's limits or the derived
/// point is not a valid program address.
pub uninterp spec fn program_address_of(program_id: Seq<u8>, seeds: Seq<Seq<u8>>) -> Option<Seq<u8>>;

/// The byte views of a list of seed buffers.
pub open spec fn views_of_seeds(seeds: Seq<Vec<u8>>) -> Seq<Seq<u8>> {
    seeds.map_values(|s: Vec<u8>| s@)
}

/// Relies on anchor_lang's `Pubkey::try_find_program_address`: the result is
/// a function of the seeds and the program id alone; an address is 32 bytes;
/// and, as its documentation states, re-deriving through
/// `Pubkey::create_program_address` with the returned bump appended as one
/// more single-byte seed yields the same address.
#[verifier::external_body]
fn find_derived_address(seeds: &Vec<Vec<u8>>, program_id: &Vec<u8>) -> (r: Option<(Vec<u8>, u8)>)
    requires
        program_id@.len() == 32,
    ensures
        (match r {
            Some(p) => {
                &&& pda_of(program_id@, views_of_seeds(seeds@)) == Some((p.0@, p.1))
                &&& p.0@.len() == 32
                &&& program_address_of(
                    program_id@,
                    views_of_seeds(seeds@).push(seq![p.1]),
                ) == Some(p.0@)
            },
            None => pda_of(program_id@, views_of_seeds(seeds@)) is None,
        }),
{
    let mut pid = [0u8; 32];
    pid.copy_from_slice(program_id.as_slice());
    let pid = anchor_lang::prelude::Pubkey::new_from_array(pid);
    let slices: Vec<&[u8]> = seeds.iter().map(|s| s.as_slice()).collect();
    anchor_lang::prelude::Pubkey::try_find_program_address(&slices, &pid)
        .map(|(a, b)| (a.to_bytes().to_vec(), b))
}

/// Relies on anchor_lang's `Pubkey::create_program_address`: the result is a
/// function of the seeds and the program id alone; an address is 32 bytes.
/// An `Err` from the call (seeds over the limits, or the derived point not a
/// valid program address) is handed back as `None`.
#[verifier::external_body]
fn create_derived_address(seeds: &Vec<Vec<u8>>, program_id: &Vec<u8>) -> (r: Option<Vec<u8>>)
    requires
        program_id@.len() == 32,
    ensures
        (match r {
            Some(a) => {
                &&& program_address_of(program_id@, views_of_seeds(seeds@)) == Some(a@)
                &&& a@.len() == 32
            },
            None => program_address_of(program_id@, views_of_seeds(seeds@)) is None,
        }),
{
    let mut pid = [0u8; 32];
    pid.copy_from_slice(program_id.as_slice());
    let pid = anchor_lang::prelude::Pubkey::new_from_array(pid);
    let slices: Vec<&[u8]> = seeds.iter().map(|s| s.as_slice()).collect();
    match anchor_lang::prelude::Pubkey::create_program_address(&slices, &pid) {
        Ok(a) => Some(a.to_bytes().to_vec()),
        Err(_) => None,
    }
}

/// The identity this catalog derives all of its addresses under.
pub open spec fn program_id_spec() -> Seq<u8> {
    seq![
        24u8, 154, 147, 55, 41, 213, 18, 108, 64, 86, 167, 29, 130, 104, 207, 65, 234, 37, 179,
        45, 52, 81, 181, 81, 162, 3, 8, 243, 219, 17, 49, 127,
    ]
}

pub fn program_id() -> (r: Vec<u8>)
    ensures
        r@ == program_id_spec(),
        r@.len() == 32,
{
    let r: Vec<u8> = vec![
        24u8, 154, 147, 55, 41, 213, 18, 108, 64, 86, 167, 29, 130, 104, 207, 65, 234, 37, 179,
        45, 52, 81, 181, 81, 162, 3, 8, 243, 219, 17, 49, 127,
    ];
    proof {
        assert(r@ =~= program_id_spec());
    }
    r
}

// ---- the semantic labels, one per record kind ----

/// The bytes of the label "USER_SEED".
pub open spec fn user_seed_spec() -> Seq<u8> {
    seq![85u8, 83, 69, 82, 95, 83, 69, 69, 68]
}

pub fn user_seed() -> (r: Vec<u8>)
    ensures
        r@ == user_seed_spec(),
{
    let r: Vec<u8> = vec![85u8, 83, 69, 82, 95, 83, 69, 69, 68];
    proof {
        assert(r@ =~= user_seed_spec());
    }
    r
}

/// The bytes of the label "GAME_SEED".
pub open spec fn game_seed_spec() -> Seq<u8> {
    seq![71u8, 65, 77, 69, 95, 83, 69, 69, 68]
}

pub fn game_seed() -> (r: Vec<u8>)
    ensures
        r@ == game_seed_spec(),
{
    let r: Vec<u8> = vec![71u8, 65, 77, 69, 95, 83, 69, 69, 68];
    proof {
        assert(r@ =~= game_seed_spec());
    }
    r
}

/// The bytes of the label "STAR_SEED".
pub open spec fn star_seed_spec() -> Seq<u8> {
    seq![83u8, 84, 65, 82, 95, 83, 69, 69, 68]
}

pub fn star_seed() -> (r: Vec<u8>)
    ensures
        r@ == star_seed_spec(),
{
    let r: Vec<u8> = vec![83u8, 84, 65, 82, 95, 83, 69, 69, 68];
    proof {
        assert(r@ =~= star_seed_spec());
    }
    r
}

/// The bytes of the label "FEED_SEED".
pub open spec fn feed_seed_spec() -> Seq<u8> {
    seq![70u8, 69, 69, 68, 95, 83, 69, 69, 68]
}

pub fn feed_seed() -> (r: Vec<u8>)
    ensures
        r@ == feed_seed_spec(),
{
    let r: Vec<u8> = vec![70u8, 69, 69, 68, 95, 83, 69, 69, 68];
    proof {
        assert(r@ =~= feed_seed_spec());
    }
    r
}

/// The bytes of the label "feed_authority".
pub open spec fn feed_authority_seed_spec() -> Seq<u8> {
    seq![102u8, 101, 101, 100, 95, 97, 117, 116, 104, 111, 114, 105, 116, 121]
}

pub fn feed_authority_seed() -> (r: Vec<u8>)
    ensures
        r@ == feed_authority_seed_spec(),
{
    let r: Vec<u8> = vec![102u8, 101, 101, 100, 95, 97, 117, 116, 104, 111, 114, 105, 116, 121];
    proof {
        assert(r@ =~= feed_authority_seed_spec());
    }
    r
}

// ---- the general deriver ----

/// The address and bump that `derive` yields for a label and a seed list:
/// a function of its inputs alone, so re-deriving from the same inputs
/// always gives the same address and the same bump.
pub open spec fn derive_spec(label: Seq<u8>, seeds: Seq<Seq<u8>>) -> Option<(Seq<u8>, u8)> {
    pda_of(program_id_spec(), seq![label] + seeds)
}

/// Derive the storage address for a semantic label plus an ordered list of
/// identity seeds, together with the disambiguating bump to persist on the
/// record. Swapping the seed order yields a different address; exhaustion of
/// the address space for this seed path surfaces as `AddressCollision`.
pub fn derive(label: &Vec<u8>, seeds: &Vec<Vec<u8>>) -> (r: Result<(Vec<u8>, u8), GameError>)
    ensures
        (match r {
            Ok(p) => derive_spec(label@, views_of_seeds(seeds@)) == Some((p.0@, p.1))
                && p.0@.len() == 32,
            Err(e) => e == GameError::AddressCollision
                && derive_spec(label@, views_of_seeds(seeds@)) is None,
        }),
{
    let mut all: Vec<Vec<u8>> = Vec::new();
    all.push(crate::util::clone_bytes(label));
    let mut i: usize = 0;
    while i < seeds.len()
        invariant
            0 <= i <= seeds@.len(),
            all@.len() == 1 + i,
            all@[0]@ == label@,
            forall|j: int| 0 <= j < i ==> all@[j + 1]@ == seeds@[j]@,
        decreases seeds@.len() - i,
    {
        all.push(crate::util::clone_bytes(&seeds[i]));
        i += 1;
    }
    proof {
        assert(views_of_seeds(all@) =~= seq![label@] + views_of_seeds(seeds@));
    }
    let pid = program_id();
    match find_derived_address(&all, &pid) {
        Some(p) => Ok(p),
        None => Err(GameError::AddressCollision),
    }
}

/// Address determinism: the derivation is a function of the label and the
/// seed list alone, so any two derivations from the same inputs yield the
/// identical address and the identical bump.
pub proof fn lemma_derive_deterministic(
    label: Seq<u8>,
    seeds: Seq<Seq<u8>>,
    r1: (Seq<u8>, u8),
    r2: (Seq<u8>, u8),
)
    requires
        derive_spec(label, seeds) == Some(r1),
        derive_spec(label, seeds) == Some(r2),
    ensures
        r1 == r2,
{
}

// ---- the fixed seed paths, one per record kind ----

/// Where a user's profile lives: derived from "USER_SEED" and the user.
pub open spec fn profile_address_of(user: Seq<u8>) -> Option<(Seq<u8>, u8)> {
    pda_of(program_id_spec(), seq![user_seed_spec(), user])
}

/// Where a game lives: derived from "GAME_SEED", its author, and the raw
/// (unpadded) identifier bytes.
pub open spec fn game_address_of(owner: Seq<u8>, game_id: Seq<u8>) -> Option<(Seq<u8>, u8)> {
    pda_of(program_id_spec(), seq![game_seed_spec(), owner, game_id])
}

/// Where the star of one user on one game lives: derived from "STAR_SEED",
/// the starring user, and the game's address.
pub open spec fn star_address_of(user: Seq<u8>, game: Seq<u8>) -> Option<(Seq<u8>, u8)> {
    pda_of(program_id_spec(), seq![star_seed_spec(), user, game])
}

/// Where the single global feed lives: derived from "FEED_SEED" alone.
pub open spec fn feed_address_of() -> Option<(Seq<u8>, u8)> {
    pda_of(program_id_spec(), seq![feed_seed_spec()])
}

/// The authority address the feed initializer must present, re-derived from
/// the "feed_authority" label and the presented bump.
pub open spec fn feed_authority_address_of(bump: u8) -> Option<Seq<u8>> {
    program_address_of(program_id_spec(), seq![feed_authority_seed_spec(), seq![bump]])
}

pub fn derive_profile_address(user: &Vec<u8>) -> (r: Result<(Vec<u8>, u8), GameError>)
    ensures
        (match r {
            Ok(p) => profile_address_of(user@) == Some((p.0@, p.1)) && p.0@.len() == 32,
            Err(e) => e == GameError::AddressCollision && profile_address_of(user@) is None,
        }),
{
    let mut seeds: Vec<Vec<u8>> = Vec::new();
    seeds.push(user_seed());
    seeds.push(crate::util::clone_bytes(user));
    proof {
        assert(views_of_seeds(seeds@) =~= seq![user_seed_spec(), user@]);
    }
    let pid = program_id();
    match find_derived_address(&seeds, &pid) {
        Some(p) => Ok(p),
        None => Err(GameError::AddressCollision),
    }
}

pub fn derive_game_address(owner: &Vec<u8>, game_id: &Vec<u8>) -> (r: Result<
    (Vec<u8>, u8),
    GameError,
>)
    ensures
        (match r {
            Ok(p) => game_address_of(owner@, game_id@) == Some((p.0@, p.1)) && p.0@.len() == 32,
            Err(e) => e == GameError::AddressCollision && game_address_of(owner@, game_id@) is None,
        }),
{
    let mut seeds: Vec<Vec<u8>> = Vec::new();
    seeds.push(game_seed());
    seeds.push(crate::util::clone_bytes(owner));
    seeds.push(crate::util::clone_bytes(game_id));
    proof {
        assert(views_of_seeds(seeds@) =~= seq![game_seed_spec(), owner@, game_id@]);
    }
    let pid = program_id();
    match find_derived_address(&seeds, &pid) {
        Some(p) => Ok(p),
        None => Err(GameError::AddressCollision),
    }
}

pub fn derive_star_address(user: &Vec<u8>, game: &Vec<u8>) -> (r: Result<(Vec<u8>, u8), GameError>)
    ensures
        (match r {
            Ok(p) => star_address_of(user@, game@) == Some((p.0@, p.1)) && p.0@.len() == 32,
            Err(e) => e == GameError::AddressCollision && star_address_of(user@, game@) is None,
        }),
{
    let mut seeds: Vec<Vec<u8>> = Vec::new();
    seeds.push(star_seed());
    seeds.push(crate::util::clone_bytes(user));
    seeds.push(crate::util::clone_bytes(game));
    proof {
        assert(views_of_seeds(seeds@) =~= seq![star_seed_spec(), user@, game@]);
    }
    let pid = program_id();
    match find_derived_address(&seeds, &pid) {
        Some(p) => Ok(p),
        None => Err(GameError::AddressCollision),
    }
}

pub fn derive_feed_address() -> (r: Result<(Vec<u8>, u8), GameError>)
    ensures
        (match r {
            Ok(p) => feed_address_of() == Some((p.0@, p.1)) && p.0@.len() == 32,
            Err(e) => e == GameError::AddressCollision && feed_address_of() is None,
        }),
{
    let mut seeds: Vec<Vec<u8>> = Vec::new();
    seeds.push(feed_seed());
    proof {
        assert(views_of_seeds(seeds@) =~= seq![feed_seed_spec()]);
    }
    let pid = program_id();
    match find_derived_address(&seeds, &pid) {
        Some(p) => Ok(p),
        None => Err(GameError::AddressCollision),
    }
}

/// Derive the expected feed authority, as the feed initializer will: from
/// the "feed_authority" label and a caller-presented bump.
pub fn derive_feed_authority_address(bump: u8) -> (r: Option<Vec<u8>>)
    ensures
        (match r {
            Some(a) => feed_authority_address_of(bump) == Some(a@) && a@.len() == 32,
            None => feed_authority_address_of(bump) is None,
        }),
{
    let mut seeds: Vec<Vec<u8>> = Vec::new();
    seeds.push(feed_authority_seed());
    let bump_seed: Vec<u8> = vec![bump];
    proof {
        assert(bump_seed@ =~= seq![bump]);
    }
    seeds.push(bump_seed);
    proof {
        assert(views_of_seeds(seeds@) =~= seq![feed_authority_seed_spec(), seq![bump]]);
    }
    let pid = program_id();
    create_derived_address(&seeds, &pid)
}

/// The matching pair the feed initializer relies on: a caller that obtained
/// its authority by derivation presents an address the re-derivation check
/// accepts.
pub fn find_feed_authority() -> (r: Option<(Vec<u8>, u8)>)
    ensures
        (match r {
            Some(p) => {
                &&& pda_of(program_id_spec(), seq![feed_authority_seed_spec()]) == Some((
                    p.0@,
                    p.1,
                ))
                &&& feed_authority_address_of(p.1) == Some(p.0@)
                &&& p.0@.len() == 32
            },
            None => pda_of(program_id_spec(), seq![feed_authority_seed_spec()]) is None,
        }),
{
    let mut seeds: Vec<Vec<u8>> = Vec::new();
    seeds.push(feed_authority_seed());
    proof {
        assert(views_of_seeds(seeds@) =~= seq![feed_authority_seed_spec()]);
    }
    let pid = program_id();
    match find_derived_address(&seeds, &pid) {
        Some(p) => {
            proof {
                assert(views_of_seeds(seeds@).push(seq![p.1]) =~= seq![
                    feed_authority_seed_spec(),
                    seq![p.1],
                ]);
            }
            Some(p)
        },
        None => None,
    }
}

} // verus!
