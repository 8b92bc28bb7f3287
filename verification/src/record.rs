//! The registry document: one record for each registered network.

use crate::text::{compare_text, Order};
use vstd::prelude::*;

verus! {

/// The views of a sequence of strings.
pub open spec fn texts(v: Seq<String>) -> Seq<Seq<char>> {
    v.map_values(|s: String| s@)
}

/// The view of an optional string.
pub open spec fn optional_text(v: Option<String>) -> Option<Seq<char>> {
    match v {
        Some(s) => Some(s@),
        None => None,
    }
}

/// Whether two strings hold the same text.
pub fn same_text(a: &str, b: &str) -> (r: bool)
    ensures
        r == (a@ == b@),
{
    match compare_text(a, b) {
        Order::Equal => true,
        _ => false,
    }
}

/// The signature schemes that a network's standard account may be bound to.
#[derive(Clone, Copy, Debug, PartialEq, Eq, Structural)]
pub enum SignatureKind {
    Sr25519,
    Ed25519,
    Secp256k1,
    Any25519,
}

/// The scheme that a name of the registry document stands for, if it is one of the four.
pub open spec fn signature_kind_of(name: Seq<char>) -> Option<SignatureKind> {
    if name == "Sr25519"@ {
        Some(SignatureKind::Sr25519)
    } else if name == "Ed25519"@ {
        Some(SignatureKind::Ed25519)
    } else if name == "secp256k1"@ {
        Some(SignatureKind::Secp256k1)
    } else if name == "*25519"@ {
        Some(SignatureKind::Any25519)
    } else {
        None
    }
}

/// Reads the name of a signature scheme.
pub fn parse_signature_kind(name: &str) -> (r: Option<SignatureKind>)
    ensures
        r == signature_kind_of(name@),
{
    if same_text(name, "Sr25519") {
        Some(SignatureKind::Sr25519)
    } else if same_text(name, "Ed25519") {
        Some(SignatureKind::Ed25519)
    } else if same_text(name, "secp256k1") {
        Some(SignatureKind::Secp256k1)
    } else if same_text(name, "*25519") {
        Some(SignatureKind::Any25519)
    } else {
        None
    }
}

/// One entry of the registry document.
#[derive(Clone, Debug)]
pub struct AccountRecord {
    /// The network identifier that addresses carry.
    pub prefix: u16,
    /// The network's name, from which its variant identifier is derived.
    pub network: String,
    /// The name shown in documentation.
    pub display_name: String,
    /// The name of the signature scheme; a record without one is reserved.
    pub standard_account: Option<String>,
    /// The tickers of the network's tokens.
    pub symbols: Vec<String>,
    /// The number of decimals of each token, in the order of `symbols`.
    pub decimals: Vec<u8>,
    /// The network's website.
    pub website: Option<String>,
}

/// What a record holds, as plain mathematical values.
pub struct RecordView {
    pub prefix: u16,
    pub network: Seq<char>,
    pub display_name: Seq<char>,
    pub standard_account: Option<Seq<char>>,
    pub symbols: Seq<Seq<char>>,
    pub decimals: Seq<u8>,
    pub website: Option<Seq<char>>,
}

impl View for AccountRecord {
    type V = RecordView;

    open spec fn view(&self) -> RecordView {
        RecordView {
            prefix: self.prefix,
            network: self.network@,
            display_name: self.display_name@,
            standard_account: optional_text(self.standard_account),
            symbols: texts(self.symbols@),
            decimals: self.decimals@,
            website: optional_text(self.website),
        }
    }
}

impl RecordView {
    /// A record is reserved when no signature scheme is bound to it.
    pub open spec fn is_reserved(self) -> bool {
        self.standard_account is None
    }
}

impl AccountRecord {
    /// Whether the record is reserved: it names no signature scheme.
    pub fn is_reserved(&self) -> (r: bool)
        ensures
            r == self@.is_reserved(),
    {
        self.standard_account.is_none()
    }
}

/// A record together with the variant identifier derived for it.
#[derive(Clone, Debug)]
pub struct NamedRecord {
    pub record: AccountRecord,
    pub identifier: String,
}

/// What a named record holds.
pub struct NamedRecordView {
    pub record: RecordView,
    pub identifier: Seq<char>,
}

impl View for NamedRecord {
    type V = NamedRecordView;

    open spec fn view(&self) -> NamedRecordView {
        NamedRecordView { record: self.record@, identifier: self.identifier@ }
    }
}

/// The views of a list of records.
pub open spec fn record_views(v: Seq<AccountRecord>) -> Seq<RecordView> {
    v.map_values(|r: AccountRecord| r@)
}

/// The views of a list of named records.
pub open spec fn named_views(v: Seq<NamedRecord>) -> Seq<NamedRecordView> {
    v.map_values(|r: NamedRecord| r@)
}

} // verus!
