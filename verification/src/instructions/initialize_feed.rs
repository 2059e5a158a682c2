use vstd::prelude::*;

verus! {

use crate::addressing::{derive_feed_address, derive_feed_authority_address, feed_address_of,
    feed_authority_address_of};
use crate::errors::GameError;
use crate::states::{Feed, FeedV, Record, RecordV};
use crate::store::RecordStore;
use crate::util::bytes_eq;

/// The identities feed initialization touches: the presented authority
/// address and the bump under which it claims to have been derived.
pub struct InitializeFeed {
    pub feed_authority: Vec<u8>,
    pub authority_bump: u8,
}

/// What initializing the feed does to the abstract state, and what it
/// returns. The authority check is by derivation equality, not by field
/// comparison: the presented authority must equal the address re-derived
/// from the "feed_authority" label and the presented bump; a failed
/// re-derivation is itself an authority failure.
pub open spec fn initialize_feed_spec(
    m: Map<Seq<u8>, RecordV>,
    authority: Seq<u8>,
    authority_bump: u8,
) -> (Map<Seq<u8>, RecordV>, Result<(), GameError>) {
    match feed_authority_address_of(authority_bump) {
        None => (m, Err(GameError::InvalidAuthority)),
        Some(expected) => {
            if expected != authority {
                (m, Err(GameError::InvalidAuthority))
            } else {
                match feed_address_of() {
                    None => (m, Err(GameError::AddressCollision)),
                    Some((a, bump)) => {
                        if m.dom().contains(a) {
                            (m, Err(GameError::AlreadyExists))
                        } else {
                            (
                                m.insert(a, RecordV::Feed(FeedV { games: Seq::empty(), bump })),
                                Ok(()),
                            )
                        }
                    },
                }
            }
        },
    }
}

/// Create the single global feed, empty, at its derived address, after
/// checking the presented authority against its own re-derivation.
pub fn initialize_feed(store: &mut RecordStore, ctx: &InitializeFeed) -> (r: Result<(), GameError>)
    requires
        old(store).wf(),
    ensures
        final(store).wf(),
        crate::states::state_inv(old(store)@) ==> crate::states::state_inv(final(store)@),
        (final(store)@, r) == initialize_feed_spec(
            old(store)@,
            ctx.feed_authority@,
            ctx.authority_bump,
        ),
{
    proof {
        if crate::states::state_inv(old(store)@) {
            crate::invariants::lemma_initialize_feed_preserves_inv(
                old(store)@,
                ctx.feed_authority@,
                ctx.authority_bump,
            );
        }
    }
    let expected = match derive_feed_authority_address(ctx.authority_bump) {
        Some(a) => a,
        None => {
            return Err(GameError::InvalidAuthority);
        },
    };
    if !bytes_eq(&expected, &ctx.feed_authority) {
        return Err(GameError::InvalidAuthority);
    }
    let (addr, bump) = match derive_feed_address() {
        Ok(p) => p,
        Err(e) => {
            return Err(e);
        },
    };
    let feed = Feed { games: Vec::new(), bump };
    proof {
        assert(feed@.games =~= Seq::<Seq<u8>>::empty());
    }
    match store.create(addr, Record::Feed(feed)) {
        Ok(_) => Ok(()),
        Err(e) => Err(e),
    }
}

} // verus!
