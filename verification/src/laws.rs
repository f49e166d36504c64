//! What holds of every identifier, every label and every valid pair of
//! tables.

use crate::index::table_index;
use crate::label::PokemonUuid;
use crate::tables::{lemma_decoded, TablesView};
use vstd::prelude::*;
use vstd::std_specs::cmp::PartialEqSpec;

verus! {

/// Encoding is a function of the identifier's bytes and the tables: two
/// labels that were both made for the same bytes from the same tables are
/// equal, and have the same text.
pub proof fn law_encoding_is_deterministic(
    tables: TablesView,
    bytes: Seq<u8>,
    first: PokemonUuid,
    second: PokemonUuid,
)
    requires
        first@ == tables.encoded(bytes),
        second@ == tables.encoded(bytes),
    ensures
        first.eq_spec(&second),
        first.text() == second.text(),
{
}

/// Whatever the bytes of the identifier are, the two derived indices lie
/// inside their tables, and the label is made of a word of each table.
pub proof fn law_indices_in_range(tables: TablesView, bytes: Seq<u8>)
    requires
        tables.valid(),
    ensures
        0 <= table_index(bytes, 0, tables.adjectives.len() as int) < tables.adjectives.len(),
        0 <= table_index(bytes, 8, tables.pokemons.len() as int) < tables.pokemons.len(),
        tables.holds(tables.encoded(bytes)),
{
}

/// Decoding the text of an identifier's label gives that label back.
pub proof fn law_decoding_inverts_encoding(tables: TablesView, bytes: Seq<u8>)
    requires
        tables.valid(),
    ensures
        tables.decoded(tables.encoded(bytes).text()) == Some(tables.encoded(bytes)),
{
    let label = tables.encoded(bytes);
    law_indices_in_range(tables, bytes);
    lemma_decoded(tables, label.text(), label);
}

/// A label is equal to its own text, whichever of the two stands on the
/// left, and whether the text is borrowed or owned.
pub proof fn law_label_equals_its_text(label: PokemonUuid, text: &str, owned: String)
    requires
        text@ == label.text(),
        owned@ == label.text(),
    ensures
        label.eq_spec(text),
        text.eq_spec(&label),
        label.eq_spec(&text),
        (&text).eq_spec(&label),
        label.eq_spec(&owned),
        owned.eq_spec(&label),
{
}

/// A label is equal to no other text than its own: one character that
/// differs, is missing or is added makes the two unequal, whichever of them
/// stands on the left, and whether the text is borrowed or owned.
pub proof fn law_label_differs_from_other_text(label: PokemonUuid, text: &str, owned: String)
    requires
        text@ != label.text(),
        owned@ != label.text(),
    ensures
        !label.eq_spec(text),
        !text.eq_spec(&label),
        !label.eq_spec(&text),
        !(&text).eq_spec(&label),
        !label.eq_spec(&owned),
        !owned.eq_spec(&label),
{
}

} // verus!
