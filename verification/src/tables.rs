//! The two tables of words, and the labels that are made from them.

use crate::index::{derive_index, table_index};
use crate::label::{LabelView, PokemonUuid};
use crate::text::{
    bytes_at, has_space, is_label_text, label_bytes, label_text, lemma_label_text_bytes,
    str_eq, SPACE,
};
use vstd::prelude::*;
use vstd::string::*;
use vstd::utf8::*;

verus! {

/// What is wrong with a table of words.
#[derive(Copy, Clone, Debug, PartialEq, Eq, Structural)]
pub enum TableFault {
    /// The table has no word.
    Empty,
    /// A word of the table is the empty text.
    EmptyWord,
    /// A word of the table holds a space.
    SpaceInWord,
    /// A word stands in the table twice.
    DuplicateWord,
}

/// Why a pair of tables was turned down: the table, and what is wrong with it.
#[derive(Copy, Clone, Debug, PartialEq, Eq, Structural)]
pub enum TablesError {
    /// The table of adjectives has this fault.
    Adjectives(TableFault),
    /// The table of adjectives is sound and the table of names has this fault.
    Pokemons(TableFault),
}

/// Why a text was not decoded.
#[derive(Copy, Clone, Debug, PartialEq, Eq, Structural)]
pub enum DecodeError {
    /// The text is not an adjective of the table, a space and a name of the table.
    NotFound,
}

/// The words of a table as texts.
pub open spec fn texts(words: Seq<&'static str>) -> Seq<Seq<char>> {
    Seq::new(words.len(), |i: int| words[i]@)
}

/// Whether some word of the table is empty.
pub open spec fn has_empty_word(words: Seq<Seq<char>>) -> bool {
    exists|i: int| 0 <= i < words.len() && (#[trigger] words[i]).len() == 0
}

/// Whether some word of the table holds a space.
pub open spec fn has_spaced_word(words: Seq<Seq<char>>) -> bool {
    exists|i: int| 0 <= i < words.len() && (#[trigger] words[i]).contains(' ')
}

/// Whether some word stands at two places of the table.
pub open spec fn has_repeated_word(words: Seq<Seq<char>>) -> bool {
    exists|i: int, j: int|
        #![trigger words[i], words[j]]
        0 <= i < j < words.len() && words[i] == words[j]
}

/// What is wrong with a table, if anything: a table holds at least one word,
/// and its words are not empty, hold no space and are all different. Of
/// several faults the first of this list is named.
pub open spec fn table_fault(words: Seq<Seq<char>>) -> Option<TableFault> {
    if words.len() == 0 {
        Some(TableFault::Empty)
    } else if has_empty_word(words) {
        Some(TableFault::EmptyWord)
    } else if has_spaced_word(words) {
        Some(TableFault::SpaceInWord)
    } else if has_repeated_word(words) {
        Some(TableFault::DuplicateWord)
    } else {
        None
    }
}

fn any_empty_word(words: &Vec<&'static str>) -> (found: bool)
    ensures
        found == has_empty_word(texts(words@)),
{
    let ghost table = texts(words@);
    let mut i: usize = 0;
    while i < words.len()
        invariant
            i <= words.len(),
            table == texts(words@),
            forall|k: int| 0 <= k < i ==> (#[trigger] table[k]).len() != 0,
        decreases words.len() - i,
    {
        if words[i].is_empty() {
            assert(table[i as int].len() == 0);
            return true;
        }
        i = i + 1;
    }
    false
}

fn any_spaced_word(words: &Vec<&'static str>) -> (found: bool)
    ensures
        found == has_spaced_word(texts(words@)),
{
    let ghost table = texts(words@);
    let mut i: usize = 0;
    while i < words.len()
        invariant
            i <= words.len(),
            table == texts(words@),
            forall|k: int| 0 <= k < i ==> !(#[trigger] table[k]).contains(' '),
        decreases words.len() - i,
    {
        if has_space(words[i]) {
            assert(table[i as int].contains(' '));
            return true;
        }
        i = i + 1;
    }
    false
}

fn any_repeated_word(words: &Vec<&'static str>) -> (found: bool)
    ensures
        found == has_repeated_word(texts(words@)),
{
    let ghost table = texts(words@);
    let n = words.len();
    let mut i: usize = 0;
    while i < n
        invariant
            i <= n,
            n == words.len(),
            table == texts(words@),
            forall|a: int, b: int|
                #![trigger table[a], table[b]]
                0 <= a < i && a < b < n ==> table[a] != table[b],
        decreases n - i,
    {
        let mut j: usize = i + 1;
        while j < n
            invariant
                i < j <= n,
                n == words.len(),
                table == texts(words@),
                forall|b: int| i < b < j ==> table[i as int] != #[trigger] table[b],
            decreases n - j,
        {
            if str_eq(words[i], words[j]) {
                assert(table[i as int] == table[j as int]);
                return true;
            }
            j = j + 1;
        }
        i = i + 1;
    }
    false
}

/// Looks for what is wrong with a table of words.
pub fn find_fault(words: &Vec<&'static str>) -> (fault: Option<TableFault>)
    ensures
        fault == table_fault(texts(words@)),
{
    if words.len() == 0 {
        Some(TableFault::Empty)
    } else if any_empty_word(words) {
        Some(TableFault::EmptyWord)
    } else if any_spaced_word(words) {
        Some(TableFault::SpaceInWord)
    } else if any_repeated_word(words) {
        Some(TableFault::DuplicateWord)
    } else {
        None
    }
}

/// A pair of tables as two sequences of texts.
pub struct TablesView {
    pub adjectives: Seq<Seq<char>>,
    pub pokemons: Seq<Seq<char>>,
}

impl TablesView {
    /// Both tables are free of faults.
    pub open spec fn valid(self) -> bool {
        table_fault(self.adjectives) is None && table_fault(self.pokemons) is None
    }

    /// The label of the identifier with these bytes: the first eight bytes
    /// choose the adjective, the last eight the name.
    pub open spec fn encoded(self, bytes: Seq<u8>) -> LabelView {
        LabelView {
            adj: self.adjectives[table_index(bytes, 0, self.adjectives.len() as int)],
            pok: self.pokemons[table_index(bytes, 8, self.pokemons.len() as int)],
        }
    }

    /// Both words of the label stand in their tables.
    pub open spec fn holds(self, label: LabelView) -> bool {
        self.adjectives.contains(label.adj) && self.pokemons.contains(label.pok)
    }

    /// The text is the adjective at `i`, a space, and the name at `j`.
    pub open spec fn spells(self, text: Seq<char>, i: int, j: int) -> bool {
        &&& 0 <= i < self.adjectives.len()
        &&& 0 <= j < self.pokemons.len()
        &&& text == label_text(self.adjectives[i], self.pokemons[j])
    }

    /// The label that the text spells, if it spells one.
    pub open spec fn decoded(self, text: Seq<char>) -> Option<LabelView> {
        if exists|i: int, j: int| self.spells(text, i, j) {
            let (i, j) = choose|i: int, j: int| self.spells(text, i, j);
            Some(LabelView { adj: self.adjectives[i], pok: self.pokemons[j] })
        } else {
            None
        }
    }
}

/// A text spells at most one label, as long as the adjectives hold no space:
/// the first space of the text ends the adjective.
pub proof fn lemma_label_text_parts(
    adjective: Seq<char>,
    name: Seq<char>,
    other_adjective: Seq<char>,
    other_name: Seq<char>,
)
    requires
        !adjective.contains(' '),
        !other_adjective.contains(' '),
        label_text(adjective, name) == label_text(other_adjective, other_name),
    ensures
        adjective == other_adjective,
        name == other_name,
{
    let text = label_text(adjective, name);
    let other_text = label_text(other_adjective, other_name);
    if adjective.len() < other_adjective.len() {
        assert(text[adjective.len() as int] == ' ');
        assert(other_text[adjective.len() as int] == other_adjective[adjective.len() as int]);
        assert(other_adjective.contains(' '));
    }
    if other_adjective.len() < adjective.len() {
        assert(other_text[other_adjective.len() as int] == ' ');
        assert(text[other_adjective.len() as int] == adjective[other_adjective.len() as int]);
        assert(adjective.contains(' '));
    }
    let n = adjective.len() as int;
    assert(adjective =~= text.subrange(0, n));
    assert(other_adjective =~= other_text.subrange(0, n));
    assert(name =~= text.subrange(n + 1, text.len() as int));
    assert(other_name =~= other_text.subrange(n + 1, other_text.len() as int));
}

/// With valid tables, the label that a text decodes to is the one label of
/// the tables that has this text.
pub proof fn lemma_decoded(tables: TablesView, text: Seq<char>, label: LabelView)
    requires
        tables.valid(),
    ensures
        tables.decoded(text) == Some(label) <==> tables.holds(label) && label.text() == text,
{
    if tables.holds(label) && label.text() == text {
        let i = choose|i: int| 0 <= i < tables.adjectives.len() && tables.adjectives[i] == label.adj;
        let j = choose|j: int| 0 <= j < tables.pokemons.len() && tables.pokemons[j] == label.pok;
        assert(tables.spells(text, i, j));
        let (ci, cj) = choose|i: int, j: int| tables.spells(text, i, j);
        lemma_label_text_parts(
            tables.adjectives[ci],
            tables.pokemons[cj],
            tables.adjectives[i],
            tables.pokemons[j],
        );
    }
    if tables.decoded(text) == Some(label) {
        let (ci, cj) = choose|i: int, j: int| tables.spells(text, i, j);
        assert(tables.adjectives[ci] == label.adj);
        assert(tables.pokemons[cj] == label.pok);
    }
}

/// Two tables of words that are fit for making labels: each holds at least
/// one word, and the words of a table are not empty, hold no space and are all
/// different.
#[derive(Debug)]
pub struct Tables {
    adjectives: Vec<&'static str>,
    pokemons: Vec<&'static str>,
}

impl View for Tables {
    type V = TablesView;

    closed spec fn view(&self) -> TablesView {
        TablesView { adjectives: texts(self.adjectives@), pokemons: texts(self.pokemons@) }
    }
}

impl Tables {
    #[verifier::type_invariant]
    spec fn inv(&self) -> bool {
        self@.valid()
    }

    /// Takes the two tables if both are free of faults. The adjectives are
    /// looked at first: a fault of the names is reported only when the
    /// adjectives have none.
    pub fn new(adjectives: Vec<&'static str>, pokemons: Vec<&'static str>) -> (made: Result<
        Tables,
        TablesError,
    >)
        ensures
            match made {
                Ok(tables) => {
                    &&& tables@.valid()
                    &&& tables@.adjectives == texts(adjectives@)
                    &&& tables@.pokemons == texts(pokemons@)
                },
                Err(TablesError::Adjectives(fault)) => table_fault(texts(adjectives@)) == Some(
                    fault,
                ),
                Err(TablesError::Pokemons(fault)) => {
                    &&& table_fault(texts(adjectives@)) is None
                    &&& table_fault(texts(pokemons@)) == Some(fault)
                },
            },
    {
        match find_fault(&adjectives) {
            Some(fault) => Err(TablesError::Adjectives(fault)),
            None => match find_fault(&pokemons) {
                Some(fault) => Err(TablesError::Pokemons(fault)),
                None => Ok(Tables { adjectives, pokemons }),
            },
        }
    }

    /// The label of the identifier with these sixteen bytes.
    pub fn encode(&self, bytes: &[u8; 16]) -> (label: PokemonUuid)
        ensures
            self@.valid(),
            label@ == self@.encoded(bytes@),
            self@.holds(label@),
    {
        proof {
            use_type_invariant(self);
        }
        let adj_index = derive_index(bytes, 0, self.adjectives.len());
        let pok_index = derive_index(bytes, 8, self.pokemons.len());
        let label = PokemonUuid::of_words(self.adjectives[adj_index], self.pokemons[pok_index]);
        proof {
            assert(self@.adjectives[adj_index as int] == label@.adj);
            assert(self@.pokemons[pok_index as int] == label@.pok);
        }
        label
    }

    /// Reads a label back from its text: an adjective of the table, one
    /// space, a name of the table, and nothing else.
    pub fn decode(&self, text: &str) -> (found: Result<PokemonUuid, DecodeError>)
        ensures
            self@.valid(),
            match found {
                Ok(label) => {
                    &&& self@.decoded(text@) == Some(label@)
                    &&& self@.holds(label@)
                    &&& label.text() == text@
                },
                Err(DecodeError::NotFound) => self@.decoded(text@) is None,
            },
    {
        proof {
            use_type_invariant(self);
        }
        let bytes = text.as_bytes();
        let mut i: usize = 0;
        while i < self.adjectives.len()
            invariant
                i <= self.adjectives.len(),
                self@.valid(),
                bytes@ == text.spec_bytes(),
                forall|a: int, b: int| 0 <= a < i ==> !#[trigger] self@.spells(text@, a, b),
            decreases self.adjectives.len() - i,
        {
            let adjective = self.adjectives[i];
            let head = adjective.as_bytes();
            if head.len() < bytes.len() && bytes_at(bytes, 0, head) && bytes[head.len()] == SPACE {
                let mut j: usize = 0;
                while j < self.pokemons.len()
                    invariant
                        j <= self.pokemons.len(),
                        i < self.adjectives.len(),
                        self@.valid(),
                        adjective == self.adjectives[i as int],
                        forall|b: int| 0 <= b < j ==> !#[trigger] self@.spells(text@, i as int, b),
                    decreases self.pokemons.len() - j,
                {
                    let name = self.pokemons[j];
                    if is_label_text(text, adjective, name) {
                        let label = PokemonUuid::of_words(adjective, name);
                        proof {
                            assert(self@.spells(text@, i as int, j as int));
                            assert(self@.holds(label@));
                            lemma_decoded(self@, text@, label@);
                        }
                        return Ok(label);
                    }
                    j = j + 1;
                }
            } else {
                assert forall|b: int| !#[trigger] self@.spells(text@, i as int, b) by {
                    if self@.spells(text@, i as int, b) {
                        let tail = encode_utf8(self@.pokemons[b]);
                        lemma_label_text_bytes(text@, adjective@, self@.pokemons[b]);
                        assert(label_bytes(head@, tail).subrange(0, head@.len() as int) =~= head@);
                        assert(label_bytes(head@, tail)[head@.len() as int] == SPACE);
                    }
                }
            }
            i = i + 1;
        }
        Err(DecodeError::NotFound)
    }
}

} // verus!
