//! The first part of a step: the new pieces of metadata.

use crate::convert::{metadata_of, ConvertError};
use crate::state::{Metadata, MetadataView};
use crate::wire;
use std::collections::HashMap;
use vstd::prelude::*;

verus! {

/// The metadata after the new pieces were put in, in the order given: a
/// later piece replaces an earlier one of the same id, and the first piece
/// that cannot be converted ends it.
pub open spec fn with_metadata(
    metadata: Map<u64, MetadataView>,
    new: Seq<wire::NewMetadata>,
) -> Result<Map<u64, MetadataView>, ConvertError>
    decreases new.len(),
{
    if new.len() == 0 {
        Ok(metadata)
    } else {
        match with_metadata(metadata, new.drop_last()) {
            Err(e) => Err(e),
            Ok(m) => match metadata_of(new.last()) {
                Err(e) => Err(e),
                Ok(piece) => Ok(m.insert(piece.id, piece)),
            },
        }
    }
}

/// Once a prefix of the new metadata fails, the whole fails in the same way.
pub proof fn lemma_with_metadata_fails(
    metadata: Map<u64, MetadataView>,
    new: Seq<wire::NewMetadata>,
    n: int,
)
    requires
        0 <= n <= new.len(),
        with_metadata(metadata, new.take(n)) is Err,
    ensures
        with_metadata(metadata, new) == with_metadata(metadata, new.take(n)),
    decreases new.len() - n,
{
    if n == new.len() {
        assert(new.take(n) =~= new);
    } else {
        assert(new.take(n + 1).drop_last() =~= new.take(n));
        lemma_with_metadata_fails(metadata, new, n + 1);
    }
}

/// The views of the pieces of metadata in a map.
pub open spec fn metadata_views(m: Map<u64, Metadata>) -> Map<u64, MetadataView> {
    m.map_values(|x: Metadata| x@)
}

/// Puts the new pieces of metadata into `metadata`.
pub fn apply_metadata(
    metadata: &mut HashMap<u64, Metadata>,
    new: Vec<wire::NewMetadata>,
) -> (r: Result<(), ConvertError>)
    ensures
        match with_metadata(metadata_views(old(metadata)@), new@) {
            Ok(m) => r is Ok && metadata_views(final(metadata)@) == m,
            Err(e) => r == Err::<(), ConvertError>(e),
        },
{
    let ghost before = metadata_views(metadata@);
    let ghost all = new@;
    assert(all.take(0) =~= Seq::<wire::NewMetadata>::empty());
    for piece in it: new
        invariant
            it.seq() == all,
            all == new@,
            before == metadata_views(old(metadata)@),
            with_metadata(before, all.take(it.index() as int)) == Ok::<
                Map<u64, MetadataView>,
                ConvertError,
            >(metadata_views(metadata@)),
    {
        let ghost i = it.index() as int;
        assert(all.take(i + 1).drop_last() =~= all.take(i));
        assert(all.take(i + 1).last() == piece);
        match Metadata::try_from(piece) {
            Err(e) => {
                proof {
                    assert(with_metadata(before, all.take(i + 1)) == Err::<
                        Map<u64, MetadataView>,
                        ConvertError,
                    >(e));
                    lemma_with_metadata_fails(before, all, i + 1);
                }
                return Err(e);
            },
            Ok(m) => {
                let ghost prior = metadata@;
                metadata.insert(m.id.0, m);
                assert(metadata_views(metadata@) =~= metadata_views(prior).insert(m.id.0, m@));
            },
        }
    }
    assert(all.take(all.len() as int) =~= all);
    Ok(())
}

} // verus!
