//! An address format: the prefix of a network, known to the registry or not.

use crate::error::ParseError;
use crate::lookup::{
    is_reserved_prefix, known, lookup_name, lookup_prefix, named, network_name, reserved, unknown,
};
use crate::numeral::{decimal_digits, decimal_string, parse_u16, parsed_u16};
use crate::registry::{
    all_formats, all_names, formats, from_known_address_format, names, network_of, prefix_of,
    run_ends_table, run_starts_table, Ss58AddressFormatRegistry,
};
use crate::runs::in_some_run;
use crate::search::slice_texts;
use vstd::prelude::*;
use vstd::std_specs::convert::{FromSpecImpl, TryFromSpecImpl};
use vstd::string::StringExecFns;

verus! {

/// An address format: any 16-bit prefix. See also [`Ss58AddressFormatRegistry`].
#[derive(Copy, Clone, PartialEq, Eq, Debug, Structural)]
pub struct Ss58AddressFormat {
    prefix: u16,
}

impl View for Ss58AddressFormat {
    type V = u16;

    /// The prefix.
    closed spec fn view(&self) -> u16 {
        self.prefix
    }
}

/// What a prefix is shown as: the name of its network where it is known, else its decimal
/// numeral.
pub open spec fn display_of(prefix: u16) -> Seq<char> {
    match known(prefix) {
        Some(format) => network_of(format),
        None => decimal_digits(prefix as nat),
    }
}

/// The prefix that a text stands for: that of the network of this name, else the 16-bit
/// number that it writes in decimal digits.
pub open spec fn prefix_named(text: Seq<char>) -> Option<u16> {
    match named(text) {
        Some(format) => Some(prefix_of(format)),
        None => parsed_u16(text),
    }
}

impl Ss58AddressFormat {
    /// The format with the prefix `prefix`.
    pub closed spec fn of(prefix: u16) -> Self {
        Ss58AddressFormat { prefix }
    }

    /// The format made of a prefix has that prefix, and a format is made of its prefix.
    pub proof fn lemma_of(prefix: u16, format: Ss58AddressFormat)
        ensures
            Self::of(prefix)@ == prefix,
            Self::of(format@) == format,
    {
    }

    /// A format with a prefix of the caller's choice.
    #[inline]
    pub fn custom(prefix: u16) -> (r: Self)
        ensures
            r == Self::of(prefix),
            r@ == prefix,
    {
        Ss58AddressFormat { prefix }
    }

    /// The prefix that addresses of the network carry.
    pub fn prefix(&self) -> (r: u16)
        ensures
            r == self@,
    {
        self.prefix
    }

    /// The names of all known networks, sorted.
    pub fn all_names() -> (r: &'static [&'static str])
        ensures
            slice_texts(r@) == names(),
    {
        all_names()
    }

    /// All known formats, in the order of their names.
    pub fn all() -> (r: &'static [Ss58AddressFormatRegistry])
        ensures
            r@ == formats(),
    {
        all_formats()
    }

    /// Whether the prefix is reserved for future use: it lies above 16384, or the registry
    /// lists it without a signature scheme.
    pub fn is_reserved(&self) -> (r: bool)
        ensures
            r == is_reserved_prefix(self@),
    {
        reserved(self.prefix)
    }

    /// Whether the format is custom: its prefix is that of no known network, which is to say
    /// that it lies in no run of known prefixes.
    pub fn is_custom(&self) -> (r: bool)
        ensures
            r == known(self@) is None,
            r == !in_some_run(run_starts_table(), run_ends_table(), self@),
    {
        unknown(self.prefix)
    }

    /// The name of the network where the format is known, else the prefix in decimal digits.
    pub fn to_string(&self) -> (s: String)
        ensures
            s@ == display_of(self@),
    {
        match lookup_prefix(self.prefix) {
            Some(format) => String::from_str(network_name(format)),
            None => decimal_string(self.prefix as u128),
        }
    }
}

/// The prefix of an address format.
pub fn from_address_format(x: Ss58AddressFormat) -> (prefix: u16)
    ensures
        prefix == x@,
{
    x.prefix
}

impl From<Ss58AddressFormatRegistry> for Ss58AddressFormat {
    fn from(x: Ss58AddressFormatRegistry) -> (r: Ss58AddressFormat)
        ensures
            r@ == prefix_of(x),
    {
        Ss58AddressFormat { prefix: from_known_address_format(x) }
    }
}

impl FromSpecImpl<Ss58AddressFormatRegistry> for Ss58AddressFormat {
    open spec fn obeys_from_spec() -> bool {
        true
    }

    open spec fn from_spec(x: Ss58AddressFormatRegistry) -> Ss58AddressFormat {
        Ss58AddressFormat::of(prefix_of(x))
    }
}

impl From<u8> for Ss58AddressFormat {
    #[inline]
    fn from(x: u8) -> (r: Ss58AddressFormat)
        ensures
            r@ == x,
    {
        Ss58AddressFormat::from(u16::from(x))
    }
}

impl FromSpecImpl<u8> for Ss58AddressFormat {
    open spec fn obeys_from_spec() -> bool {
        true
    }

    open spec fn from_spec(x: u8) -> Ss58AddressFormat {
        Ss58AddressFormat::of(x as u16)
    }
}

impl From<Ss58AddressFormat> for u16 {
    #[inline]
    fn from(x: Ss58AddressFormat) -> (r: u16)
        ensures
            r == x@,
    {
        from_address_format(x)
    }
}

impl FromSpecImpl<Ss58AddressFormat> for u16 {
    open spec fn obeys_from_spec() -> bool {
        true
    }

    open spec fn from_spec(x: Ss58AddressFormat) -> u16 {
        x@
    }
}

impl From<u16> for Ss58AddressFormat {
    #[inline]
    fn from(prefix: u16) -> (r: Ss58AddressFormat)
        ensures
            r@ == prefix,
    {
        Ss58AddressFormat { prefix }
    }
}

impl FromSpecImpl<u16> for Ss58AddressFormat {
    open spec fn obeys_from_spec() -> bool {
        true
    }

    open spec fn from_spec(prefix: u16) -> Ss58AddressFormat {
        Ss58AddressFormat::of(prefix)
    }
}

impl TryFrom<Ss58AddressFormat> for Ss58AddressFormatRegistry {
    type Error = ParseError;

    /// The known format with the prefix of `x`; an error where the prefix is that of no
    /// known network.
    fn try_from(x: Ss58AddressFormat) -> (r: Result<Ss58AddressFormatRegistry, ParseError>) {
        match lookup_prefix(x.prefix()) {
            Some(format) => Ok(format),
            None => Err(ParseError),
        }
    }
}

impl TryFromSpecImpl<Ss58AddressFormat> for Ss58AddressFormatRegistry {
    open spec fn obeys_try_from_spec() -> bool {
        true
    }

    open spec fn try_from_spec(x: Ss58AddressFormat) -> Result<
        Ss58AddressFormatRegistry,
        ParseError,
    > {
        match known(x@) {
            Some(format) => Ok(format),
            None => Err(ParseError),
        }
    }
}

impl<'a> TryFrom<&'a str> for Ss58AddressFormatRegistry {
    type Error = ParseError;

    /// The known format of the network called `x`; an error where no known network has
    /// this name.
    fn try_from(x: &'a str) -> (r: Result<Ss58AddressFormatRegistry, ParseError>) {
        match lookup_name(x) {
            Some(format) => Ok(format),
            None => Err(ParseError),
        }
    }
}

impl<'a> TryFromSpecImpl<&'a str> for Ss58AddressFormatRegistry {
    open spec fn obeys_try_from_spec() -> bool {
        true
    }

    open spec fn try_from_spec(x: &'a str) -> Result<Ss58AddressFormatRegistry, ParseError> {
        match named(x@) {
            Some(format) => Ok(format),
            None => Err(ParseError),
        }
    }
}

impl<'a> TryFrom<&'a str> for Ss58AddressFormat {
    type Error = ParseError;

    /// The format of the network called `x`; where no known network has this name, the
    /// custom format whose prefix `x` writes as a 16-bit decimal numeral; else an error.
    fn try_from(x: &'a str) -> (r: Result<Ss58AddressFormat, ParseError>) {
        match lookup_name(x) {
            Some(format) => Ok(Ss58AddressFormat { prefix: from_known_address_format(format) }),
            None => match parse_u16(x) {
                Some(prefix) => Ok(Ss58AddressFormat { prefix }),
                None => Err(ParseError),
            },
        }
    }
}

impl<'a> TryFromSpecImpl<&'a str> for Ss58AddressFormat {
    open spec fn obeys_try_from_spec() -> bool {
        true
    }

    open spec fn try_from_spec(x: &'a str) -> Result<Ss58AddressFormat, ParseError> {
        match prefix_named(x@) {
            Some(prefix) => Ok(Ss58AddressFormat::of(prefix)),
            None => Err(ParseError),
        }
    }
}

impl From<Ss58AddressFormat> for String {
    fn from(x: Ss58AddressFormat) -> (r: String)
        ensures
            r@ == display_of(x@),
    {
        x.to_string()
    }
}

impl FromSpecImpl<Ss58AddressFormat> for String {
    open spec fn obeys_from_spec() -> bool {
        false
    }

    open spec fn from_spec(x: Ss58AddressFormat) -> String {
        arbitrary()
    }
}

impl std::str::FromStr for Ss58AddressFormatRegistry {
    type Err = ParseError;

    /// The known format of the network called `data`.
    fn from_str(data: &str) -> (r: Result<Self, ParseError>)
        ensures
            r == match named(data@) {
                Some(format) => Ok::<Ss58AddressFormatRegistry, ParseError>(format),
                None => Err(ParseError),
            },
    {
        Ss58AddressFormatRegistry::try_from(data)
    }
}

impl Ss58AddressFormatRegistry {
    /// The name of the network.
    pub fn to_string(&self) -> (s: String)
        ensures
            s@ == network_of(*self),
    {
        String::from_str(network_name(*self))
    }
}

} // verus!
