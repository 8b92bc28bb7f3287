//! The compiled registry: the known networks as an enumeration, and its tables. The
//! variants stand in the order of the network names; the prefix of each is given by
//! `prefix_of`.

use crate::numeral::{decimal_digits, push_decimal};
use crate::record::SignatureKind;
use crate::search::slice_texts;
use crate::token::Token;
use vstd::prelude::*;
use vstd::string::StringExecFns;

verus! {

/// A known address format: one variant for each registered network.
#[non_exhaustive]
#[derive(Copy, Clone, PartialEq, Eq, Debug, Structural)]
pub enum Ss58AddressFormatRegistry {
    /// Bare 32-bit Ed25519 public key.
    BareEd25519Account,
    /// Bare 32-bit ECDSA SECP-256k1 public key.
    BareSecp256K1Account,
    /// Bare 32-bit Schnorr/Ristretto (S/R 25519) public key.
    BareSr25519Account,
    /// Acala - <https://acala.network/>
    AcalaAccount,
    /// Astar Network - <https://astar.network>
    AstarAccount,
    /// Bifrost - <https://bifrost.finance/>
    BifrostAccount,
    /// Dark Mainnet
    DarkAccount,
    /// Darwinia Network - <https://darwinia.network/>
    DarwiniaAccount,
    /// Edgeware - <https://edgewa.re>
    EdgewareAccount,
    /// Integritee - <https://integritee.network>
    IntegriteeAccount,
    /// Karura - <https://karura.network/>
    KaruraAccount,
    /// Katal Chain
    KatalchainAccount,
    /// Kulupu - <https://kulupu.network/>
    KulupuAccount,
    /// Kusama Relay Chain - <https://kusama.network>
    KusamaAccount,
    /// Laminar - <http://laminar.network/>
    LaminarAccount,
    /// Polkadex Mainnet - <https://polkadex.trade>
    PolkadexAccount,
    /// Polkadot Relay Chain - <https://polkadot.network>
    PolkadotAccount,
    /// Polymesh - <https://polymath.network/>
    PolymeshAccount,
    /// This prefix is reserved.
    Reserved46Account,
    /// This prefix is reserved.
    Reserved47Account,
    /// Laminar Reynolds Canary - <http://laminar.network/>
    ReynoldsAccount,
    /// Substrate - <https://substrate.io/>
    SubstrateAccount,
    /// Synesthesia - <https://synesthesia.network/>
    SynesthesiaAccount,
    /// Totem - <https://totemaccounting.com>
    TotemAccount,
}

/// A token of a known network: one variant for each pair of a ticker and a number of
/// decimals that a network names.
#[non_exhaustive]
#[derive(Copy, Clone, PartialEq, Eq, Debug, Structural)]
pub enum TokenRegistry {
    /// ACA, with 12 decimals.
    Aca,
    /// ASTR, with 18 decimals.
    Astr,
    /// BNC, with 12 decimals.
    Bnc,
    /// RING, with 9 decimals.
    Ring,
    /// KTON, with 9 decimals.
    Kton,
    /// EDG, with 18 decimals.
    Edg,
    /// TEER, with 12 decimals.
    Teer,
    /// KAR, with 12 decimals.
    Kar,
    /// KLP, with 12 decimals.
    Klp,
    /// KSM, with 12 decimals.
    Ksm,
    /// LAMI, with 18 decimals.
    Lami,
    /// PDEX, with 12 decimals.
    Pdex,
    /// DOT, with 10 decimals.
    Dot,
    /// POLYX, with 6 decimals.
    Polyx,
    /// REY, with 18 decimals.
    Rey,
    /// SYN, with 12 decimals.
    Syn,
    /// TOTEM, with 0 decimals.
    Totem,
}

/// The number of known networks.
pub const REGISTRY_SIZE: usize = 24;

/// The prefix of a known network.
pub open spec fn prefix_of(format: Ss58AddressFormatRegistry) -> u16 {
    match format {
        Ss58AddressFormatRegistry::BareEd25519Account => 3,
        Ss58AddressFormatRegistry::BareSecp256K1Account => 43,
        Ss58AddressFormatRegistry::BareSr25519Account => 1,
        Ss58AddressFormatRegistry::AcalaAccount => 10,
        Ss58AddressFormatRegistry::AstarAccount => 5,
        Ss58AddressFormatRegistry::BifrostAccount => 6,
        Ss58AddressFormatRegistry::DarkAccount => 17,
        Ss58AddressFormatRegistry::DarwiniaAccount => 18,
        Ss58AddressFormatRegistry::EdgewareAccount => 7,
        Ss58AddressFormatRegistry::IntegriteeAccount => 13,
        Ss58AddressFormatRegistry::KaruraAccount => 8,
        Ss58AddressFormatRegistry::KatalchainAccount => 4,
        Ss58AddressFormatRegistry::KulupuAccount => 16,
        Ss58AddressFormatRegistry::KusamaAccount => 2,
        Ss58AddressFormatRegistry::LaminarAccount => 11,
        Ss58AddressFormatRegistry::PolkadexAccount => 89,
        Ss58AddressFormatRegistry::PolkadotAccount => 0,
        Ss58AddressFormatRegistry::PolymeshAccount => 12,
        Ss58AddressFormatRegistry::Reserved46Account => 46,
        Ss58AddressFormatRegistry::Reserved47Account => 47,
        Ss58AddressFormatRegistry::ReynoldsAccount => 9,
        Ss58AddressFormatRegistry::SubstrateAccount => 42,
        Ss58AddressFormatRegistry::SynesthesiaAccount => 15,
        Ss58AddressFormatRegistry::TotemAccount => 14,
    }
}

/// The name of a known network.
pub open spec fn network_of(format: Ss58AddressFormatRegistry) -> Seq<char> {
    match format {
        Ss58AddressFormatRegistry::BareEd25519Account => "BareEd25519"@,
        Ss58AddressFormatRegistry::BareSecp256K1Account => "BareSecp256k1"@,
        Ss58AddressFormatRegistry::BareSr25519Account => "BareSr25519"@,
        Ss58AddressFormatRegistry::AcalaAccount => "acala"@,
        Ss58AddressFormatRegistry::AstarAccount => "astar"@,
        Ss58AddressFormatRegistry::BifrostAccount => "bifrost"@,
        Ss58AddressFormatRegistry::DarkAccount => "dark"@,
        Ss58AddressFormatRegistry::DarwiniaAccount => "darwinia"@,
        Ss58AddressFormatRegistry::EdgewareAccount => "edgeware"@,
        Ss58AddressFormatRegistry::IntegriteeAccount => "integritee"@,
        Ss58AddressFormatRegistry::KaruraAccount => "karura"@,
        Ss58AddressFormatRegistry::KatalchainAccount => "katalchain"@,
        Ss58AddressFormatRegistry::KulupuAccount => "kulupu"@,
        Ss58AddressFormatRegistry::KusamaAccount => "kusama"@,
        Ss58AddressFormatRegistry::LaminarAccount => "laminar"@,
        Ss58AddressFormatRegistry::PolkadexAccount => "polkadex"@,
        Ss58AddressFormatRegistry::PolkadotAccount => "polkadot"@,
        Ss58AddressFormatRegistry::PolymeshAccount => "polymesh"@,
        Ss58AddressFormatRegistry::Reserved46Account => "reserved46"@,
        Ss58AddressFormatRegistry::Reserved47Account => "reserved47"@,
        Ss58AddressFormatRegistry::ReynoldsAccount => "reynolds"@,
        Ss58AddressFormatRegistry::SubstrateAccount => "substrate"@,
        Ss58AddressFormatRegistry::SynesthesiaAccount => "synesthesia"@,
        Ss58AddressFormatRegistry::TotemAccount => "totem"@,
    }
}

/// The signature scheme of a known network's standard account; a reserved network has none.
pub open spec fn account_of(format: Ss58AddressFormatRegistry) -> Option<SignatureKind> {
    match format {
        Ss58AddressFormatRegistry::BareEd25519Account => None,
        Ss58AddressFormatRegistry::BareSecp256K1Account => None,
        Ss58AddressFormatRegistry::BareSr25519Account => None,
        Ss58AddressFormatRegistry::AcalaAccount => Some(SignatureKind::Any25519),
        Ss58AddressFormatRegistry::AstarAccount => Some(SignatureKind::Any25519),
        Ss58AddressFormatRegistry::BifrostAccount => Some(SignatureKind::Any25519),
        Ss58AddressFormatRegistry::DarkAccount => Some(SignatureKind::Any25519),
        Ss58AddressFormatRegistry::DarwiniaAccount => Some(SignatureKind::Any25519),
        Ss58AddressFormatRegistry::EdgewareAccount => Some(SignatureKind::Any25519),
        Ss58AddressFormatRegistry::IntegriteeAccount => Some(SignatureKind::Any25519),
        Ss58AddressFormatRegistry::KaruraAccount => Some(SignatureKind::Any25519),
        Ss58AddressFormatRegistry::KatalchainAccount => Some(SignatureKind::Any25519),
        Ss58AddressFormatRegistry::KulupuAccount => Some(SignatureKind::Any25519),
        Ss58AddressFormatRegistry::KusamaAccount => Some(SignatureKind::Any25519),
        Ss58AddressFormatRegistry::LaminarAccount => Some(SignatureKind::Any25519),
        Ss58AddressFormatRegistry::PolkadexAccount => Some(SignatureKind::Any25519),
        Ss58AddressFormatRegistry::PolkadotAccount => Some(SignatureKind::Any25519),
        Ss58AddressFormatRegistry::PolymeshAccount => Some(SignatureKind::Any25519),
        Ss58AddressFormatRegistry::Reserved46Account => None,
        Ss58AddressFormatRegistry::Reserved47Account => None,
        Ss58AddressFormatRegistry::ReynoldsAccount => Some(SignatureKind::Any25519),
        Ss58AddressFormatRegistry::SubstrateAccount => Some(SignatureKind::Any25519),
        Ss58AddressFormatRegistry::SynesthesiaAccount => Some(SignatureKind::Any25519),
        Ss58AddressFormatRegistry::TotemAccount => Some(SignatureKind::Any25519),
    }
}

/// The tokens of a known network, in the order in which the network names them.
pub open spec fn tokens_of(format: Ss58AddressFormatRegistry) -> Seq<TokenRegistry> {
    match format {
        Ss58AddressFormatRegistry::AcalaAccount => seq![TokenRegistry::Aca],
        Ss58AddressFormatRegistry::AstarAccount => seq![TokenRegistry::Astr],
        Ss58AddressFormatRegistry::BifrostAccount => seq![TokenRegistry::Bnc],
        Ss58AddressFormatRegistry::DarwiniaAccount => seq![
            TokenRegistry::Ring,
            TokenRegistry::Kton,
        ],
        Ss58AddressFormatRegistry::EdgewareAccount => seq![TokenRegistry::Edg],
        Ss58AddressFormatRegistry::IntegriteeAccount => seq![TokenRegistry::Teer],
        Ss58AddressFormatRegistry::KaruraAccount => seq![TokenRegistry::Kar],
        Ss58AddressFormatRegistry::KulupuAccount => seq![TokenRegistry::Klp],
        Ss58AddressFormatRegistry::KusamaAccount => seq![TokenRegistry::Ksm],
        Ss58AddressFormatRegistry::LaminarAccount => seq![TokenRegistry::Lami],
        Ss58AddressFormatRegistry::PolkadexAccount => seq![TokenRegistry::Pdex],
        Ss58AddressFormatRegistry::PolkadotAccount => seq![TokenRegistry::Dot],
        Ss58AddressFormatRegistry::PolymeshAccount => seq![TokenRegistry::Polyx],
        Ss58AddressFormatRegistry::ReynoldsAccount => seq![TokenRegistry::Rey],
        Ss58AddressFormatRegistry::SynesthesiaAccount => seq![TokenRegistry::Syn],
        Ss58AddressFormatRegistry::TotemAccount => seq![TokenRegistry::Totem],
        _ => Seq::empty(),
    }
}

/// The ticker of a token.
pub open spec fn token_name(token: TokenRegistry) -> Seq<char> {
    match token {
        TokenRegistry::Aca => "ACA"@,
        TokenRegistry::Astr => "ASTR"@,
        TokenRegistry::Bnc => "BNC"@,
        TokenRegistry::Ring => "RING"@,
        TokenRegistry::Kton => "KTON"@,
        TokenRegistry::Edg => "EDG"@,
        TokenRegistry::Teer => "TEER"@,
        TokenRegistry::Kar => "KAR"@,
        TokenRegistry::Klp => "KLP"@,
        TokenRegistry::Ksm => "KSM"@,
        TokenRegistry::Lami => "LAMI"@,
        TokenRegistry::Pdex => "PDEX"@,
        TokenRegistry::Dot => "DOT"@,
        TokenRegistry::Polyx => "POLYX"@,
        TokenRegistry::Rey => "REY"@,
        TokenRegistry::Syn => "SYN"@,
        TokenRegistry::Totem => "TOTEM"@,
    }
}

/// The number of decimals of a token.
pub open spec fn token_decimals(token: TokenRegistry) -> u8 {
    match token {
        TokenRegistry::Aca => 12,
        TokenRegistry::Astr => 18,
        TokenRegistry::Bnc => 12,
        TokenRegistry::Ring => 9,
        TokenRegistry::Kton => 9,
        TokenRegistry::Edg => 18,
        TokenRegistry::Teer => 12,
        TokenRegistry::Kar => 12,
        TokenRegistry::Klp => 12,
        TokenRegistry::Ksm => 12,
        TokenRegistry::Lami => 18,
        TokenRegistry::Pdex => 12,
        TokenRegistry::Dot => 10,
        TokenRegistry::Polyx => 6,
        TokenRegistry::Rey => 18,
        TokenRegistry::Syn => 12,
        TokenRegistry::Totem => 0,
    }
}

/// How a token is shown for inspection: its ticker, in quotes, and its number of decimals.
pub open spec fn token_debug_form(token: TokenRegistry) -> Seq<char> {
    "TokenRegistry { name: \""@ + token_name(token) + "\", decimals: "@ + decimal_digits(
        token_decimals(token) as nat,
    ) + " }"@
}

/// The known formats, sorted by network name.
pub open spec fn formats() -> Seq<Ss58AddressFormatRegistry> {
    seq![
        Ss58AddressFormatRegistry::BareEd25519Account,
        Ss58AddressFormatRegistry::BareSecp256K1Account,
        Ss58AddressFormatRegistry::BareSr25519Account,
        Ss58AddressFormatRegistry::AcalaAccount,
        Ss58AddressFormatRegistry::AstarAccount,
        Ss58AddressFormatRegistry::BifrostAccount,
        Ss58AddressFormatRegistry::DarkAccount,
        Ss58AddressFormatRegistry::DarwiniaAccount,
        Ss58AddressFormatRegistry::EdgewareAccount,
        Ss58AddressFormatRegistry::IntegriteeAccount,
        Ss58AddressFormatRegistry::KaruraAccount,
        Ss58AddressFormatRegistry::KatalchainAccount,
        Ss58AddressFormatRegistry::KulupuAccount,
        Ss58AddressFormatRegistry::KusamaAccount,
        Ss58AddressFormatRegistry::LaminarAccount,
        Ss58AddressFormatRegistry::PolkadexAccount,
        Ss58AddressFormatRegistry::PolkadotAccount,
        Ss58AddressFormatRegistry::PolymeshAccount,
        Ss58AddressFormatRegistry::Reserved46Account,
        Ss58AddressFormatRegistry::Reserved47Account,
        Ss58AddressFormatRegistry::ReynoldsAccount,
        Ss58AddressFormatRegistry::SubstrateAccount,
        Ss58AddressFormatRegistry::SynesthesiaAccount,
        Ss58AddressFormatRegistry::TotemAccount,
    ]
}

/// The names of the known networks, in the order of `formats`.
pub open spec fn names() -> Seq<Seq<char>> {
    formats().map_values(|format: Ss58AddressFormatRegistry| network_of(format))
}

/// The prefix index: each known prefix with the position of its format in `formats`, sorted
/// by prefix.
pub open spec fn prefix_index() -> Seq<(u16, usize)> {
    seq![
        (0u16, 16usize),
        (1u16, 2usize),
        (2u16, 13usize),
        (3u16, 0usize),
        (4u16, 11usize),
        (5u16, 4usize),
        (6u16, 5usize),
        (7u16, 8usize),
        (8u16, 10usize),
        (9u16, 20usize),
        (10u16, 3usize),
        (11u16, 14usize),
        (12u16, 17usize),
        (13u16, 9usize),
        (14u16, 23usize),
        (15u16, 22usize),
        (16u16, 12usize),
        (17u16, 6usize),
        (18u16, 7usize),
        (42u16, 21usize),
        (43u16, 1usize),
        (46u16, 18usize),
        (47u16, 19usize),
        (89u16, 15usize),
    ]
}

/// The prefixes of the reserved networks, in the order of `formats`.
pub open spec fn reserved_prefixes() -> Seq<u16> {
    seq![3u16, 43u16, 1u16, 46u16, 47u16]
}

/// The first prefix of each run of consecutive known prefixes.
pub open spec fn run_starts_table() -> Seq<u16> {
    seq![0u16, 42u16, 46u16, 89u16]
}

/// The last prefix of each run, in the order of `run_starts_table`.
pub open spec fn run_ends_table() -> Seq<u16> {
    seq![18u16, 43u16, 47u16, 89u16]
}

/// The number of a known format: its network's prefix.
pub fn from_known_address_format(x: Ss58AddressFormatRegistry) -> (prefix: u16)
    ensures
        prefix == prefix_of(x),
{
    match x {
        Ss58AddressFormatRegistry::BareEd25519Account => 3,
        Ss58AddressFormatRegistry::BareSecp256K1Account => 43,
        Ss58AddressFormatRegistry::BareSr25519Account => 1,
        Ss58AddressFormatRegistry::AcalaAccount => 10,
        Ss58AddressFormatRegistry::AstarAccount => 5,
        Ss58AddressFormatRegistry::BifrostAccount => 6,
        Ss58AddressFormatRegistry::DarkAccount => 17,
        Ss58AddressFormatRegistry::DarwiniaAccount => 18,
        Ss58AddressFormatRegistry::EdgewareAccount => 7,
        Ss58AddressFormatRegistry::IntegriteeAccount => 13,
        Ss58AddressFormatRegistry::KaruraAccount => 8,
        Ss58AddressFormatRegistry::KatalchainAccount => 4,
        Ss58AddressFormatRegistry::KulupuAccount => 16,
        Ss58AddressFormatRegistry::KusamaAccount => 2,
        Ss58AddressFormatRegistry::LaminarAccount => 11,
        Ss58AddressFormatRegistry::PolkadexAccount => 89,
        Ss58AddressFormatRegistry::PolkadotAccount => 0,
        Ss58AddressFormatRegistry::PolymeshAccount => 12,
        Ss58AddressFormatRegistry::Reserved46Account => 46,
        Ss58AddressFormatRegistry::Reserved47Account => 47,
        Ss58AddressFormatRegistry::ReynoldsAccount => 9,
        Ss58AddressFormatRegistry::SubstrateAccount => 42,
        Ss58AddressFormatRegistry::SynesthesiaAccount => 15,
        Ss58AddressFormatRegistry::TotemAccount => 14,
    }
}

/// All known formats, sorted by network name.
pub fn all_formats() -> (r: &'static [Ss58AddressFormatRegistry])
    ensures
        r@ == formats(),
{
    let r: &'static [Ss58AddressFormatRegistry] = &[
        Ss58AddressFormatRegistry::BareEd25519Account,
        Ss58AddressFormatRegistry::BareSecp256K1Account,
        Ss58AddressFormatRegistry::BareSr25519Account,
        Ss58AddressFormatRegistry::AcalaAccount,
        Ss58AddressFormatRegistry::AstarAccount,
        Ss58AddressFormatRegistry::BifrostAccount,
        Ss58AddressFormatRegistry::DarkAccount,
        Ss58AddressFormatRegistry::DarwiniaAccount,
        Ss58AddressFormatRegistry::EdgewareAccount,
        Ss58AddressFormatRegistry::IntegriteeAccount,
        Ss58AddressFormatRegistry::KaruraAccount,
        Ss58AddressFormatRegistry::KatalchainAccount,
        Ss58AddressFormatRegistry::KulupuAccount,
        Ss58AddressFormatRegistry::KusamaAccount,
        Ss58AddressFormatRegistry::LaminarAccount,
        Ss58AddressFormatRegistry::PolkadexAccount,
        Ss58AddressFormatRegistry::PolkadotAccount,
        Ss58AddressFormatRegistry::PolymeshAccount,
        Ss58AddressFormatRegistry::Reserved46Account,
        Ss58AddressFormatRegistry::Reserved47Account,
        Ss58AddressFormatRegistry::ReynoldsAccount,
        Ss58AddressFormatRegistry::SubstrateAccount,
        Ss58AddressFormatRegistry::SynesthesiaAccount,
        Ss58AddressFormatRegistry::TotemAccount,
    ];
    assert(r@ =~= formats());
    r
}

/// The names of all known networks, sorted, in the order of `all_formats`.
pub fn all_names() -> (r: &'static [&'static str])
    ensures
        slice_texts(r@) == names(),
{
    let r: &'static [&'static str] = &[
        "BareEd25519",
        "BareSecp256k1",
        "BareSr25519",
        "acala",
        "astar",
        "bifrost",
        "dark",
        "darwinia",
        "edgeware",
        "integritee",
        "karura",
        "katalchain",
        "kulupu",
        "kusama",
        "laminar",
        "polkadex",
        "polkadot",
        "polymesh",
        "reserved46",
        "reserved47",
        "reynolds",
        "substrate",
        "synesthesia",
        "totem",
    ];
    assert(slice_texts(r@) =~= names());
    r
}

/// The prefix index, sorted by prefix.
pub fn prefix_to_index() -> (r: &'static [(u16, usize)])
    ensures
        r@ == prefix_index(),
{
    let r: &'static [(u16, usize)] = &[
        (0, 16),
        (1, 2),
        (2, 13),
        (3, 0),
        (4, 11),
        (5, 4),
        (6, 5),
        (7, 8),
        (8, 10),
        (9, 20),
        (10, 3),
        (11, 14),
        (12, 17),
        (13, 9),
        (14, 23),
        (15, 22),
        (16, 12),
        (17, 6),
        (18, 7),
        (42, 21),
        (43, 1),
        (46, 18),
        (47, 19),
        (89, 15),
    ];
    assert(r@ =~= prefix_index());
    r
}

impl Ss58AddressFormatRegistry {
    /// The tokens of the network, in the order in which it names them.
    pub fn tokens(&self) -> (r: &'static [TokenRegistry])
        ensures
            r@ == tokens_of(*self),
    {
        let r: &'static [TokenRegistry] = match self {
            Ss58AddressFormatRegistry::AcalaAccount => &[TokenRegistry::Aca],
            Ss58AddressFormatRegistry::AstarAccount => &[TokenRegistry::Astr],
            Ss58AddressFormatRegistry::BifrostAccount => &[TokenRegistry::Bnc],
            Ss58AddressFormatRegistry::DarwiniaAccount => &[
                TokenRegistry::Ring,
                TokenRegistry::Kton,
            ],
            Ss58AddressFormatRegistry::EdgewareAccount => &[TokenRegistry::Edg],
            Ss58AddressFormatRegistry::IntegriteeAccount => &[TokenRegistry::Teer],
            Ss58AddressFormatRegistry::KaruraAccount => &[TokenRegistry::Kar],
            Ss58AddressFormatRegistry::KulupuAccount => &[TokenRegistry::Klp],
            Ss58AddressFormatRegistry::KusamaAccount => &[TokenRegistry::Ksm],
            Ss58AddressFormatRegistry::LaminarAccount => &[TokenRegistry::Lami],
            Ss58AddressFormatRegistry::PolkadexAccount => &[TokenRegistry::Pdex],
            Ss58AddressFormatRegistry::PolkadotAccount => &[TokenRegistry::Dot],
            Ss58AddressFormatRegistry::PolymeshAccount => &[TokenRegistry::Polyx],
            Ss58AddressFormatRegistry::ReynoldsAccount => &[TokenRegistry::Rey],
            Ss58AddressFormatRegistry::SynesthesiaAccount => &[TokenRegistry::Syn],
            Ss58AddressFormatRegistry::TotemAccount => &[TokenRegistry::Totem],
            _ => &[],
        };
        assert(r@ =~= tokens_of(*self));
        r
    }
}

impl TokenRegistry {
    /// The ticker of the token and its number of decimals.
    pub fn attributes(&self) -> (r: (&'static str, u8))
        ensures
            r.0@ == token_name(*self),
            r.1 == token_decimals(*self),
    {
        match self {
            TokenRegistry::Aca => ("ACA", 12),
            TokenRegistry::Astr => ("ASTR", 18),
            TokenRegistry::Bnc => ("BNC", 12),
            TokenRegistry::Ring => ("RING", 9),
            TokenRegistry::Kton => ("KTON", 9),
            TokenRegistry::Edg => ("EDG", 18),
            TokenRegistry::Teer => ("TEER", 12),
            TokenRegistry::Kar => ("KAR", 12),
            TokenRegistry::Klp => ("KLP", 12),
            TokenRegistry::Ksm => ("KSM", 12),
            TokenRegistry::Lami => ("LAMI", 18),
            TokenRegistry::Pdex => ("PDEX", 12),
            TokenRegistry::Dot => ("DOT", 10),
            TokenRegistry::Polyx => ("POLYX", 6),
            TokenRegistry::Rey => ("REY", 18),
            TokenRegistry::Syn => ("SYN", 12),
            TokenRegistry::Totem => ("TOTEM", 0),
        }
    }

    /// Writes the token for inspection: `TokenRegistry { name: "DOT", decimals: 10 }`.
    pub fn to_debug_string(&self) -> (s: String)
        ensures
            s@ == token_debug_form(*self),
    {
        let (name, decimals) = self.attributes();
        let mut s = String::from_str("TokenRegistry { name: \"");
        s.append(name);
        s.append("\", decimals: ");
        push_decimal(&mut s, decimals as u128);
        s.append(" }");
        s
    }

    /// An amount of the token, in its smallest unit.
    pub fn create_token(&self, amount: u128) -> (token: Token)
        ensures
            token.name@ == token_name(*self),
            token.decimals == token_decimals(*self),
            token.amount == amount,
    {
        let (name, decimals) = self.attributes();
        Token { name, decimals, amount }
    }
}

} // verus!
