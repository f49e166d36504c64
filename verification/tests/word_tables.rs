use uuid::Uuid;
use uuid_to_pokemon::tables::find_fault;
use uuid_to_pokemon::{
    uuid_to_pokemon, DecodeError, PokemonUuid, TableFault, Tables, TablesError,
};

fn adjectives() -> Vec<&'static str> {
    vec!["Busy", "Clumsy", "Dull"]
}

fn pokemons() -> Vec<&'static str> {
    vec!["bulbasaur", "ivysaur", "venusaur", "charmander", "mr-mime"]
}

#[test]
fn a_sound_table_has_no_fault() {
    assert_eq!(find_fault(&adjectives()), None);
    assert_eq!(find_fault(&pokemons()), None);
    assert_eq!(find_fault(&vec!["x"]), None);
    assert_eq!(find_fault(&vec!["pokémon", "pokemon", "Pokemon"]), None);
}

#[test]
fn an_empty_table_is_a_fault() {
    assert_eq!(find_fault(&vec![]), Some(TableFault::Empty));
}

#[test]
fn an_empty_word_is_a_fault() {
    assert_eq!(find_fault(&vec![""]), Some(TableFault::EmptyWord));
    assert_eq!(find_fault(&vec!["Busy", ""]), Some(TableFault::EmptyWord));
    assert_eq!(find_fault(&vec!["", "Busy"]), Some(TableFault::EmptyWord));
}

#[test]
fn a_space_in_a_word_is_a_fault() {
    assert_eq!(find_fault(&vec![" "]), Some(TableFault::SpaceInWord));
    assert_eq!(
        find_fault(&vec!["bulbasaur", "mr mime"]),
        Some(TableFault::SpaceInWord)
    );
    assert_eq!(
        find_fault(&vec!["Busy ", "Dull"]),
        Some(TableFault::SpaceInWord)
    );
    assert_eq!(
        find_fault(&vec!["Busy", " Dull"]),
        Some(TableFault::SpaceInWord)
    );
}

#[test]
fn a_word_that_stands_twice_is_a_fault() {
    assert_eq!(
        find_fault(&vec!["Busy", "Busy"]),
        Some(TableFault::DuplicateWord)
    );
    assert_eq!(
        find_fault(&vec!["Busy", "Dull", "Clumsy", "Dull"]),
        Some(TableFault::DuplicateWord)
    );
    assert_eq!(
        find_fault(&vec!["a", "b", "c", "d", "a"]),
        Some(TableFault::DuplicateWord)
    );
}

#[test]
fn of_several_faults_the_first_kind_is_named() {
    assert_eq!(
        find_fault(&vec!["a b", "a b", ""]),
        Some(TableFault::EmptyWord)
    );
    assert_eq!(
        find_fault(&vec!["x", "x", "a b"]),
        Some(TableFault::SpaceInWord)
    );
    assert_eq!(
        find_fault(&vec!["a b", "a b"]),
        Some(TableFault::SpaceInWord)
    );
}

#[test]
fn sound_tables_are_taken() {
    assert!(Tables::new(adjectives(), pokemons()).is_ok());
    assert!(Tables::new(vec!["a"], vec!["b"]).is_ok());
    // A word may stand in both tables.
    assert!(Tables::new(vec!["a"], vec!["a"]).is_ok());
}

#[test]
fn faulty_adjectives_are_turned_down() {
    let fault = |words: Vec<&'static str>| Tables::new(words, pokemons()).err();
    assert_eq!(
        fault(vec![]),
        Some(TablesError::Adjectives(TableFault::Empty))
    );
    assert_eq!(
        fault(vec!["Busy", ""]),
        Some(TablesError::Adjectives(TableFault::EmptyWord))
    );
    assert_eq!(
        fault(vec!["Very busy"]),
        Some(TablesError::Adjectives(TableFault::SpaceInWord))
    );
    assert_eq!(
        fault(vec!["Busy", "Dull", "Busy"]),
        Some(TablesError::Adjectives(TableFault::DuplicateWord))
    );
}

#[test]
fn faulty_names_are_turned_down() {
    let fault = |words: Vec<&'static str>| Tables::new(adjectives(), words).err();
    assert_eq!(fault(vec![]), Some(TablesError::Pokemons(TableFault::Empty)));
    assert_eq!(
        fault(vec!["", "ivysaur"]),
        Some(TablesError::Pokemons(TableFault::EmptyWord))
    );
    assert_eq!(
        fault(vec!["mr mime"]),
        Some(TablesError::Pokemons(TableFault::SpaceInWord))
    );
    assert_eq!(
        fault(vec!["ivysaur", "ivysaur"]),
        Some(TablesError::Pokemons(TableFault::DuplicateWord))
    );
}

#[test]
fn the_adjectives_are_looked_at_first() {
    assert_eq!(
        Tables::new(vec!["Busy", "Busy"], vec![]).err(),
        Some(TablesError::Adjectives(TableFault::DuplicateWord))
    );
    assert_eq!(
        Tables::new(vec![], vec![""]).err(),
        Some(TablesError::Adjectives(TableFault::Empty))
    );
}

#[test]
fn the_nil_uuid_gets_the_first_word_of_each_table() {
    let tables = Tables::new(vec!["Busy", "Clumsy"], vec!["bulbasaur", "ivysaur"]).unwrap();
    let label = uuid_to_pokemon(Uuid::nil(), &tables);
    assert_eq!(label.to_string(), "Busy bulbasaur");
    assert!(label == "Busy bulbasaur");
    assert_eq!(tables.decode("Busy bulbasaur"), Ok(label));
}

#[test]
fn small_tables_encode_by_the_remainder() {
    let tables = Tables::new(adjectives(), pokemons()).unwrap();
    assert_eq!(
        tables.encode(&[0u8; 16]),
        PokemonUuid::from(("Busy", "bulbasaur"))
    );
    // 260100 is 0 modulo 3 and 0 modulo 5.
    assert_eq!(
        tables.encode(&[0xffu8; 16]),
        PokemonUuid::from(("Busy", "bulbasaur"))
    );
    let mut bytes = [0u8; 16];
    bytes[0] = 1;
    bytes[4] = 5;
    bytes[8] = 3;
    bytes[12] = 3;
    // 5 is 2 modulo 3, 9 is 4 modulo 5.
    assert_eq!(
        tables.encode(&bytes),
        PokemonUuid::from(("Dull", "mr-mime"))
    );
    assert_eq!(tables.encode(&bytes).to_string(), "Dull mr-mime");
}

#[test]
fn tables_of_one_word_give_one_label() {
    let tables = Tables::new(vec!["Only"], vec!["one"]).unwrap();
    let label = PokemonUuid::from(("Only", "one"));
    assert_eq!(tables.encode(&[0u8; 16]), label);
    assert_eq!(tables.encode(&[0xffu8; 16]), label);
    assert_eq!(tables.encode(&[7u8; 16]), label);
    assert_eq!(tables.decode("Only one"), Ok(label));
    assert_eq!(tables.decode("Only"), Err(DecodeError::NotFound));
}

#[test]
fn small_tables_decode_every_pair() {
    let tables = Tables::new(adjectives(), pokemons()).unwrap();
    for adjective in adjectives() {
        for pokemon in pokemons() {
            let label = PokemonUuid::from((adjective, pokemon));
            assert_eq!(tables.decode(&label.to_string()), Ok(label));
            assert_eq!(
                tables.decode(&format!("{}{}", adjective, pokemon)),
                Err(DecodeError::NotFound)
            );
            assert_eq!(
                tables.decode(&format!("{} {}", pokemon, adjective)),
                Err(DecodeError::NotFound)
            );
        }
    }
}

#[test]
fn an_adjective_that_begins_another_is_told_apart() {
    let tables = Tables::new(vec!["Bus", "Busy", "B"], vec!["y", "bulbasaur", "usy"]).unwrap();
    assert_eq!(
        tables.decode("Busy bulbasaur"),
        Ok(PokemonUuid::from(("Busy", "bulbasaur")))
    );
    assert_eq!(tables.decode("Bus y"), Ok(PokemonUuid::from(("Bus", "y"))));
    assert_eq!(tables.decode("B usy"), Ok(PokemonUuid::from(("B", "usy"))));
    assert_eq!(tables.decode("Busy y"), Ok(PokemonUuid::from(("Busy", "y"))));
    assert_eq!(tables.decode("Bu sy"), Err(DecodeError::NotFound));
    assert_eq!(tables.decode("Busy"), Err(DecodeError::NotFound));
}

#[test]
fn a_pair_of_words_is_taken_as_it_stands() {
    let label = PokemonUuid::from(("not in", "any table"));
    assert_eq!(label.to_string(), "not in any table");
    assert_eq!(label, PokemonUuid::from(("not in", "any table")));
    assert!(label != PokemonUuid::from(("not", "in any table")));
    // The two labels share a text and differ all the same.
    assert_eq!(
        label.to_string(),
        PokemonUuid::from(("not", "in any table")).to_string()
    );
    let copy = label;
    assert_eq!(copy, label);
    assert_eq!(PokemonUuid::from(("", "")).to_string(), " ");
}
