//! The registry of the well-known SS58 address formats.
//!
//! An SS58 address carries a 16-bit prefix that names its network. This crate holds the
//! registry of the known networks in two forms. The first is the compiled registry: the
//! enumeration [`Ss58AddressFormatRegistry`] with its tables, the open type
//! [`Ss58AddressFormat`] that holds any prefix, the conversions between the two and between
//! them and network names, and the tokens of the networks. The second is the compiler that
//! makes such tables of a registry document: [`validate::validate`] checks the records,
//! [`ident::derive_identifier`] names the variants, and [`tables::build_tables`] sorts the
//! records and builds the name table, the prefix index, the list of reserved prefixes, the
//! runs of consecutive prefixes and the token table; [`compile::compile`] does all three.
//!
//! Every function is verified against a contract. What holds of the tables is proved in
//! [`laws`] for the compiled registry and in [`compile`] for the tables of any valid
//! document; [`document`] proves that the compiled registry holds the tables that the
//! compiler makes of the registry's own document.

pub mod address_format;
pub mod compile;
pub mod document;
pub mod error;
pub mod ident;
pub mod laws;
pub mod lookup;
pub mod numeral;
pub mod record;
pub mod registry;
pub mod runs;
pub mod search;
pub mod sort;
pub mod tables;
pub mod text;
pub mod token;
pub mod validate;

pub use address_format::{from_address_format, Ss58AddressFormat};
pub use error::ParseError;
pub use registry::{from_known_address_format, Ss58AddressFormatRegistry, TokenRegistry};
pub use token::Token;
