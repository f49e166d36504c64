//! The label: an adjective and a pokémon name.

use crate::text::{is_label_text, label_text, str_eq};
use vstd::prelude::*;
use vstd::std_specs::cmp::PartialEqSpecImpl;
use vstd::std_specs::convert::FromSpecImpl;
use vstd::string::*;

verus! {

/// A label for a UUID: two words that are borrowed for the life of the
/// program, so that a label is copied freely and owns no memory.
///
/// Two labels are equal when their adjectives and their names are the same
/// texts. A label is equal to a string when the string is the label's text,
/// as [`PokemonUuid::to_string`] gives it.
#[derive(Copy, Clone, Hash, Eq, Debug)]
pub struct PokemonUuid {
    adj: &'static str,
    pok: &'static str,
}

/// A label as two texts.
pub struct LabelView {
    pub adj: Seq<char>,
    pub pok: Seq<char>,
}

impl LabelView {
    /// The text of the label: the adjective, one space, the name.
    pub open spec fn text(self) -> Seq<char> {
        label_text(self.adj, self.pok)
    }
}

impl View for PokemonUuid {
    type V = LabelView;

    closed spec fn view(&self) -> LabelView {
        LabelView { adj: self.adj@, pok: self.pok@ }
    }
}

impl PokemonUuid {
    /// The text of the label: the adjective, one space, the name.
    pub open spec fn text(&self) -> Seq<char> {
        self@.text()
    }

    /// Makes a label of two words taken from a pair of tables. The caller
    /// answers for the words: nothing is looked up.
    pub(crate) fn of_words(adj: &'static str, pok: &'static str) -> (label: PokemonUuid)
        ensures
            label@ == (LabelView { adj: adj@, pok: pok@ }),
    {
        PokemonUuid { adj, pok }
    }

    /// Writes the label out as `"<adjective> <name>"`.
    pub fn to_string(&self) -> (s: String)
        ensures
            s@ == self.text(),
    {
        proof {
            reveal_strlit(" ");
            assert(" "@ =~= seq![' ']);
        }
        let mut s = String::from_str(self.adj);
        s.append(" ");
        s.append(self.pok);
        s
    }

    /// Whether `text` is this label's text, exactly: the same case, one space,
    /// nothing missing and nothing added.
    pub fn eq_text(&self, text: &str) -> (equal: bool)
        ensures
            equal == (text@ == self.text()),
    {
        is_label_text(text, self.adj, self.pok)
    }
}

/// A pair of words taken as a label as it stands: the words are not looked up
/// in any table.
impl From<(&'static str, &'static str)> for PokemonUuid {
    fn from(v: (&'static str, &'static str)) -> (label: PokemonUuid)
        ensures
            label@ == (LabelView { adj: v.0@, pok: v.1@ }),
    {
        PokemonUuid { adj: v.0, pok: v.1 }
    }
}

impl FromSpecImpl<(&'static str, &'static str)> for PokemonUuid {
    open spec fn obeys_from_spec() -> bool {
        true
    }

    closed spec fn from_spec(v: (&'static str, &'static str)) -> PokemonUuid {
        PokemonUuid { adj: v.0, pok: v.1 }
    }
}

impl PartialEq for PokemonUuid {
    fn eq(&self, other: &PokemonUuid) -> (equal: bool) {
        str_eq(self.adj, other.adj) && str_eq(self.pok, other.pok)
    }
}

impl PartialEqSpecImpl for PokemonUuid {
    open spec fn obeys_eq_spec() -> bool {
        true
    }

    open spec fn eq_spec(&self, other: &PokemonUuid) -> bool {
        self@ == other@
    }
}

impl PartialEq<str> for PokemonUuid {
    fn eq(&self, other: &str) -> (equal: bool) {
        self.eq_text(other)
    }
}

impl PartialEqSpecImpl<str> for PokemonUuid {
    open spec fn obeys_eq_spec() -> bool {
        true
    }

    open spec fn eq_spec(&self, other: &str) -> bool {
        other@ == self.text()
    }
}

impl PartialEq<&str> for PokemonUuid {
    fn eq(&self, other: &&str) -> (equal: bool) {
        self.eq_text(*other)
    }
}

impl PartialEqSpecImpl<&str> for PokemonUuid {
    open spec fn obeys_eq_spec() -> bool {
        true
    }

    open spec fn eq_spec(&self, other: &&str) -> bool {
        other@ == self.text()
    }
}

impl PartialEq<String> for PokemonUuid {
    fn eq(&self, other: &String) -> (equal: bool) {
        self.eq_text(other.as_str())
    }
}

impl PartialEqSpecImpl<String> for PokemonUuid {
    open spec fn obeys_eq_spec() -> bool {
        true
    }

    open spec fn eq_spec(&self, other: &String) -> bool {
        other@ == self.text()
    }
}

impl PartialEq<PokemonUuid> for str {
    fn eq(&self, other: &PokemonUuid) -> (equal: bool) {
        other.eq_text(self)
    }
}

impl PartialEqSpecImpl<PokemonUuid> for str {
    open spec fn obeys_eq_spec() -> bool {
        true
    }

    open spec fn eq_spec(&self, other: &PokemonUuid) -> bool {
        self@ == other.text()
    }
}

impl PartialEq<PokemonUuid> for &str {
    fn eq(&self, other: &PokemonUuid) -> (equal: bool) {
        other.eq_text(*self)
    }
}

impl PartialEqSpecImpl<PokemonUuid> for &str {
    open spec fn obeys_eq_spec() -> bool {
        true
    }

    open spec fn eq_spec(&self, other: &PokemonUuid) -> bool {
        self@ == other.text()
    }
}

impl PartialEq<PokemonUuid> for String {
    fn eq(&self, other: &PokemonUuid) -> (equal: bool) {
        other.eq_text(self.as_str())
    }
}

impl PartialEqSpecImpl<PokemonUuid> for String {
    open spec fn obeys_eq_spec() -> bool {
        true
    }

    open spec fn eq_spec(&self, other: &PokemonUuid) -> bool {
        self@ == other.text()
    }
}

} // verus!
