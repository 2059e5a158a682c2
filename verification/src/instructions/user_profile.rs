use vstd::prelude::*;

verus! {

use crate::addressing::{derive_profile_address, profile_address_of};
use crate::errors::GameError;
use crate::states::{Record, RecordV, UserProfile, UserProfileV};
use crate::store::RecordStore;
use crate::util::clone_bytes;

/// The identities a profile initialization touches: the signing user, who
/// becomes the profile's owner.
pub struct InitializeUserProfile {
    pub user: Vec<u8>,
}

/// What initializing a profile does to the abstract state, and what it
/// returns: a fresh, empty profile at the user's derived address, or
/// `AlreadyExists` if that address is occupied.
pub open spec fn initialize_user_spec(m: Map<Seq<u8>, RecordV>, user: Seq<u8>) -> (
    Map<Seq<u8>, RecordV>,
    Result<(), GameError>,
) {
    match profile_address_of(user) {
        None => (m, Err(GameError::AddressCollision)),
        Some((a, bump)) => {
            if m.dom().contains(a) {
                (m, Err(GameError::AlreadyExists))
            } else {
                (
                    m.insert(
                        a,
                        RecordV::Profile(UserProfileV { user, saved_games: Seq::empty(), bump }),
                    ),
                    Ok(()),
                )
            }
        },
    }
}

/// Create the caller's profile, empty, at its derived address.
pub fn initialize_user(store: &mut RecordStore, ctx: &InitializeUserProfile) -> (r: Result<
    (),
    GameError,
>)
    requires
        old(store).wf(),
        ctx.user@.len() == 32,
    ensures
        final(store).wf(),
        crate::states::state_inv(old(store)@) ==> crate::states::state_inv(final(store)@),
        (final(store)@, r) == initialize_user_spec(old(store)@, ctx.user@),
{
    proof {
        if crate::states::state_inv(old(store)@) {
            crate::invariants::lemma_initialize_user_preserves_inv(old(store)@, ctx.user@);
        }
    }
    let (addr, bump) = match derive_profile_address(&ctx.user) {
        Ok(p) => p,
        Err(e) => {
            return Err(e);
        },
    };
    let profile = UserProfile { user: clone_bytes(&ctx.user), saved_games: Vec::new(), bump };
    proof {
        assert(profile@.saved_games =~= Seq::<Seq<u8>>::empty());
    }
    match store.create(addr, Record::Profile(profile)) {
        Ok(_) => Ok(()),
        Err(e) => Err(e),
    }
}

} // verus!
