//! UUIDs as the identifiers that are given a label.

use crate::label::PokemonUuid;
use crate::tables::Tables;
use uuid::Uuid;
use vstd::prelude::*;

verus! {

/// `uuid::Uuid`, carried through as an opaque value.
#[verifier::external_type_specification]
#[verifier::external_body]
pub struct ExUuid(uuid::Uuid);

/// The sixteen bytes of a UUID, in the order in which `Uuid::as_bytes` gives
/// them.
pub uninterp spec fn uuid_octets(uuid: Uuid) -> Seq<u8>;

/// `Uuid::as_bytes` borrows the sixteen bytes that the UUID is made of. They
/// depend on nothing but the UUID: this is all that is claimed of them here.
pub assume_specification[ Uuid::as_bytes ](uuid: &Uuid) -> (bytes: &[u8; 16])
    ensures
        bytes@ == uuid_octets(*uuid),
;

/// Converts a UUID into its label from the given tables.
pub fn uuid_to_pokemon(uuid: Uuid, tables: &Tables) -> (label: PokemonUuid)
    ensures
        tables@.valid(),
        label@ == tables@.encoded(uuid_octets(uuid)),
        tables@.holds(label@),
{
    tables.encode(uuid.as_bytes())
}

} // verus!
