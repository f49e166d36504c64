//! Memorable names for UUIDs.
//!
//! A UUID is mapped to a short label made of an adjective and a pokémon name,
//! so that people can talk about an object without spelling out its identifier.
//! The mapping is not injective: several UUIDs may share a label.
//!
//! The two word lists are supplied by the caller as a [`Tables`] value.
//!
//! ```
//! use uuid::Uuid;
//! use uuid_to_pokemon::{uuid_to_pokemon, Tables};
//!
//! let tables = Tables::new(vec!["Busy", "Clumsy"], vec!["bulbasaur", "ivysaur"]).unwrap();
//! let label = uuid_to_pokemon(Uuid::nil(), &tables);
//!
//! assert_eq!(label.to_string(), "Busy bulbasaur");
//! assert!(label == "Busy bulbasaur");
//! assert_eq!(tables.decode("Busy bulbasaur"), Ok(label));
//! ```

pub mod identifier;
pub mod index;
pub mod label;
pub mod laws;
pub mod tables;
pub mod text;

pub use identifier::uuid_to_pokemon;
pub use index::{derive_index, get_digit_mult};
pub use label::PokemonUuid;
pub use tables::{DecodeError, TableFault, Tables, TablesError};
