use uuid_to_pokemon::text::{bytes_at, has_space, is_label_text, str_eq, SPACE};

#[test]
fn equal_texts_are_equal() {
    assert!(str_eq("", ""));
    assert!(str_eq("bulbasaur", "bulbasaur"));
    assert!(str_eq("pokémon", "pokémon"));
    let owned = String::from("mr-") + "mime";
    assert!(str_eq(&owned, "mr-mime"));
}

#[test]
fn different_texts_are_different() {
    assert!(!str_eq("", "a"));
    assert!(!str_eq("a", ""));
    assert!(!str_eq("Busy", "busy"));
    assert!(!str_eq("bulbasaur", "bulbasau"));
    assert!(!str_eq("bulbasau", "bulbasaur"));
    assert!(!str_eq("bulbasaur", "bulbasaus"));
    assert!(!str_eq("pokémon", "pokemon"));
    assert!(!str_eq("é", "è"));
}

#[test]
fn bytes_are_found_where_they_stand() {
    let hay = b"Busy bulbasaur";
    assert!(bytes_at(hay, 0, b"Busy"));
    assert!(bytes_at(hay, 5, b"bulbasaur"));
    assert!(bytes_at(hay, 4, &[SPACE]));
    assert!(bytes_at(hay, 0, hay));
    assert!(bytes_at(hay, 0, b""));
    assert!(bytes_at(hay, 14, b""));
    assert!(!bytes_at(hay, 15, b""));
    assert!(!bytes_at(hay, 1, b"Busy"));
    assert!(!bytes_at(hay, 5, b"bulbasaurs"));
    assert!(!bytes_at(hay, 6, b"bulbasaur"));
    assert!(!bytes_at(hay, usize::MAX, b"r"));
    assert!(!bytes_at(b"", 0, b"a"));
}

#[test]
fn a_space_is_found_anywhere_in_a_word() {
    assert!(has_space(" "));
    assert!(has_space(" mime"));
    assert!(has_space("mr mime"));
    assert!(has_space("mime "));
    assert!(has_space("é è"));
    assert!(!has_space(""));
    assert!(!has_space("mr-mime"));
    assert!(!has_space("mr\tmime"));
    assert!(!has_space("mr\u{a0}mime"));
    assert!(!has_space("pokémon"));
    // U+0120 and U+2020 hold 0x20 in their number, not in their bytes.
    assert!(!has_space("\u{120}\u{2020}\u{20020}"));
}

#[test]
fn a_label_text_is_adjective_space_name() {
    assert!(is_label_text("Busy bulbasaur", "Busy", "bulbasaur"));
    assert!(is_label_text("Cranky floette-eternal", "Cranky", "floette-eternal"));
    assert!(is_label_text(" ", "", ""));
    assert!(is_label_text("a ", "a", ""));
    assert!(is_label_text(" b", "", "b"));
    assert!(is_label_text("é è", "é", "è"));
    assert!(is_label_text("a b c", "a", "b c"));
    assert!(is_label_text("a b c", "a b", "c"));
}

#[test]
fn any_other_text_is_not_the_label_text() {
    assert!(!is_label_text("", "", ""));
    assert!(!is_label_text("Busy bulbasaur", "busy", "bulbasaur"));
    assert!(!is_label_text("Busy bulbasaur", "Busy", "Bulbasaur"));
    assert!(!is_label_text("Busy bulbasau", "Busy", "bulbasaur"));
    assert!(!is_label_text("Busy bulbasaura", "Busy", "bulbasaur"));
    assert!(!is_label_text("Busy  bulbasaur", "Busy", "bulbasaur"));
    assert!(!is_label_text("Busybulbasaur", "Busy", "bulbasaur"));
    assert!(!is_label_text("Busy-bulbasaur", "Busy", "bulbasaur"));
    assert!(!is_label_text("Busy bulbasaur ", "Busy", "bulbasaur"));
    assert!(!is_label_text(" Busy bulbasaur", "Busy", "bulbasaur"));
    assert!(!is_label_text("bulbasaur Busy", "Busy", "bulbasaur"));
    assert!(!is_label_text("Busy", "Busy", "bulbasaur"));
    assert!(!is_label_text("Busy ", "Busy", "bulbasaur"));
    assert!(!is_label_text("Busy bulbasaur", "Busy bulbasaur", ""));
    assert!(!is_label_text("é è", "e", "è"));
}
