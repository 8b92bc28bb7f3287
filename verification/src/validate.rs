//! The validator: the rules that a registry document must meet before tables are built
//! from it.

use crate::ident::{
    check_identifier, derive_identifier, identifier_check, identifier_of, is_identifier,
    lemma_identifier_check_decides, IdentifierError,
};
use crate::record::{
    named_views, parse_signature_kind, record_views, same_text, signature_kind_of, AccountRecord,
    NamedRecord, NamedRecordView, RecordView,
};
use vstd::prelude::*;

verus! {

/// The rule that a record breaks, with the record's position in the document.
#[derive(Clone, Copy, Debug, PartialEq, Eq, Structural)]
pub enum RegistryError {
    /// The record at `index` has the prefix of the earlier record at `clash`.
    DuplicatePrefix { index: usize, clash: usize },
    /// The record at `index` derives the identifier of the earlier record at `clash`.
    DuplicateNetwork { index: usize, clash: usize },
    /// The record at `index` has an empty network name.
    EmptyNetwork { index: usize },
    /// The identifier derived for the record at `index` is no program identifier.
    InvalidIdentifier { index: usize, reason: IdentifierError },
    /// The record at `index` has not one decimal count for each symbol.
    SymbolDecimalMismatch { index: usize },
    /// The record at `index` names a signature scheme that is none of the four.
    UnknownSignatureKind { index: usize },
}

impl RegistryError {
    /// The position of the record that broke the rule.
    pub open spec fn index(self) -> usize {
        match self {
            RegistryError::DuplicatePrefix { index, .. } => index,
            RegistryError::DuplicateNetwork { index, .. } => index,
            RegistryError::EmptyNetwork { index } => index,
            RegistryError::InvalidIdentifier { index, .. } => index,
            RegistryError::SymbolDecimalMismatch { index } => index,
            RegistryError::UnknownSignatureKind { index } => index,
        }
    }
}

/// The record at `j` stands before the one at `i` and has its prefix.
pub open spec fn prefix_clash(rs: Seq<NamedRecordView>, i: int, j: int) -> bool {
    0 <= j < i && rs[j].record.prefix == rs[i].record.prefix
}

/// The record at `j` stands before the one at `i` and has its identifier.
pub open spec fn identifier_clash(rs: Seq<NamedRecordView>, i: int, j: int) -> bool {
    0 <= j < i && rs[j].identifier == rs[i].identifier
}

/// No record before position `bound` has the prefix of the record at `i`.
pub open spec fn prefix_unseen(rs: Seq<NamedRecordView>, i: int, bound: int) -> bool {
    forall|j: int| 0 <= j < bound ==> !prefix_clash(rs, i, j)
}

/// No record before position `bound` has the identifier of the record at `i`.
pub open spec fn identifier_unseen(rs: Seq<NamedRecordView>, i: int, bound: int) -> bool {
    forall|j: int| 0 <= j < bound ==> !identifier_clash(rs, i, j)
}

/// The record's signature scheme, where it names one, is one of the four.
pub open spec fn signature_known(r: RecordView) -> bool {
    r.standard_account matches Some(name) ==> signature_kind_of(name) is Some
}

/// The record at `i` meets every rule.
pub open spec fn record_passes(rs: Seq<NamedRecordView>, i: int) -> bool {
    &&& prefix_unseen(rs, i, i)
    &&& identifier_unseen(rs, i, i)
    &&& rs[i].record.network.len() > 0
    &&& is_identifier(rs[i].identifier)
    &&& rs[i].record.symbols.len() == rs[i].record.decimals.len()
    &&& signature_known(rs[i].record)
}

/// `e` names the first rule, in the order of the rules, that the record at `i` breaks.
pub open spec fn first_broken_rule(rs: Seq<NamedRecordView>, i: int, e: RegistryError) -> bool {
    let r = rs[i].record;
    match e {
        RegistryError::DuplicatePrefix { index, clash } => {
            &&& index == i
            &&& prefix_clash(rs, i, clash as int)
            &&& prefix_unseen(rs, i, clash as int)
        },
        RegistryError::DuplicateNetwork { index, clash } => {
            &&& index == i
            &&& prefix_unseen(rs, i, i)
            &&& identifier_clash(rs, i, clash as int)
            &&& identifier_unseen(rs, i, clash as int)
        },
        RegistryError::EmptyNetwork { index } => {
            &&& index == i
            &&& prefix_unseen(rs, i, i)
            &&& identifier_unseen(rs, i, i)
            &&& r.network.len() == 0
        },
        RegistryError::InvalidIdentifier { index, reason } => {
            &&& index == i
            &&& prefix_unseen(rs, i, i)
            &&& identifier_unseen(rs, i, i)
            &&& r.network.len() > 0
            &&& identifier_check(rs[i].identifier, Err(reason))
        },
        RegistryError::SymbolDecimalMismatch { index } => {
            &&& index == i
            &&& prefix_unseen(rs, i, i)
            &&& identifier_unseen(rs, i, i)
            &&& r.network.len() > 0
            &&& is_identifier(rs[i].identifier)
            &&& r.symbols.len() != r.decimals.len()
        },
        RegistryError::UnknownSignatureKind { index } => {
            &&& index == i
            &&& prefix_unseen(rs, i, i)
            &&& identifier_unseen(rs, i, i)
            &&& r.network.len() > 0
            &&& is_identifier(rs[i].identifier)
            &&& r.symbols.len() == r.decimals.len()
            &&& !signature_known(r)
        },
    }
}

/// Every record before position `bound` meets every rule.
pub open spec fn all_pass_before(rs: Seq<NamedRecordView>, bound: int) -> bool {
    forall|i: int| 0 <= i < bound ==> record_passes(rs, i)
}

/// The document is valid: every record meets every rule.
pub open spec fn is_valid(rs: Seq<NamedRecordView>) -> bool {
    all_pass_before(rs, rs.len() as int)
}

/// What validation answers: success for a valid document, else the first record that breaks
/// a rule with the first rule that it breaks.
pub open spec fn validation_outcome(
    rs: Seq<NamedRecordView>,
    r: Result<(), RegistryError>,
) -> bool {
    match r {
        Ok(_) => is_valid(rs),
        Err(e) => {
            &&& e.index() < rs.len()
            &&& all_pass_before(rs, e.index() as int)
            &&& first_broken_rule(rs, e.index() as int, e)
        },
    }
}

/// The records of a document, each with the identifier derived from its network name.
pub open spec fn annotated(rs: Seq<RecordView>) -> Seq<NamedRecordView> {
    rs.map_values(
        |r: RecordView| NamedRecordView { record: r, identifier: identifier_of(r.network) },
    )
}

/// A record that breaks a rule does not pass.
pub proof fn lemma_broken_rule_fails(rs: Seq<NamedRecordView>, i: int, e: RegistryError)
    requires
        0 <= i < rs.len(),
        first_broken_rule(rs, i, e),
    ensures
        !record_passes(rs, i),
{
    match e {
        RegistryError::DuplicatePrefix { index, clash } => {
            assert(prefix_clash(rs, i, clash as int));
        },
        RegistryError::DuplicateNetwork { index, clash } => {
            assert(identifier_clash(rs, i, clash as int));
        },
        _ => {},
    }
}

/// A document has one answer to validation: what `validation_outcome` admits is decided by
/// the document.
pub proof fn lemma_validation_decides(
    rs: Seq<NamedRecordView>,
    a: Result<(), RegistryError>,
    b: Result<(), RegistryError>,
)
    requires
        validation_outcome(rs, a),
        validation_outcome(rs, b),
    ensures
        a == b,
{
    match (a, b) {
        (Ok(u), Ok(v)) => {
            assert(u == () && v == ());
        },
        (Ok(_), Err(e)) => {
            lemma_broken_rule_fails(rs, e.index() as int, e);
        },
        (Err(e), Ok(_)) => {
            lemma_broken_rule_fails(rs, e.index() as int, e);
        },
        (Err(e), Err(f)) => {
            let i = e.index() as int;
            let j = f.index() as int;
            lemma_broken_rule_fails(rs, i, e);
            lemma_broken_rule_fails(rs, j, f);
            assert(i == j);
            lemma_rule_decides(rs, i, e, f);
        },
    }
}

/// A record breaks one rule first.
proof fn lemma_rule_decides(rs: Seq<NamedRecordView>, i: int, e: RegistryError, f: RegistryError)
    requires
        0 <= i < rs.len(),
        first_broken_rule(rs, i, e),
        first_broken_rule(rs, i, f),
    ensures
        e == f,
{
    match e {
        RegistryError::DuplicatePrefix { clash, .. } => {
            assert(prefix_clash(rs, i, clash as int));
            if let RegistryError::DuplicatePrefix { clash: other, .. } = f {
                assert(prefix_clash(rs, i, other as int));
            }
        },
        RegistryError::DuplicateNetwork { clash, .. } => {
            assert(identifier_clash(rs, i, clash as int));
            match f {
                RegistryError::DuplicatePrefix { clash: other, .. } => {
                    assert(prefix_clash(rs, i, other as int));
                },
                RegistryError::DuplicateNetwork { clash: other, .. } => {
                    assert(identifier_clash(rs, i, other as int));
                },
                _ => {},
            }
        },
        RegistryError::InvalidIdentifier { reason, .. } => {
            match f {
                RegistryError::DuplicatePrefix { clash: other, .. } => {
                    assert(prefix_clash(rs, i, other as int));
                },
                RegistryError::DuplicateNetwork { clash: other, .. } => {
                    assert(identifier_clash(rs, i, other as int));
                },
                RegistryError::InvalidIdentifier { reason: other, .. } => {
                    lemma_identifier_check_decides(rs[i].identifier, Err(reason), Err(other));
                },
                RegistryError::SymbolDecimalMismatch { .. } => {
                    lemma_identifier_check_decides(rs[i].identifier, Err(reason), Ok(()));
                },
                RegistryError::UnknownSignatureKind { .. } => {
                    lemma_identifier_check_decides(rs[i].identifier, Err(reason), Ok(()));
                },
                _ => {},
            }
        },
        _ => {
            match f {
                RegistryError::DuplicatePrefix { clash: other, .. } => {
                    assert(prefix_clash(rs, i, other as int));
                },
                RegistryError::DuplicateNetwork { clash: other, .. } => {
                    assert(identifier_clash(rs, i, other as int));
                },
                RegistryError::InvalidIdentifier { reason: other, .. } => {
                    lemma_identifier_check_decides(rs[i].identifier, Err(other), Ok(()));
                },
                _ => {},
            }
        },
    }
}

/// The earliest record before the one at `i` that has its prefix.
fn find_prefix_clash(records: &Vec<NamedRecord>, i: usize) -> (r: Option<usize>)
    requires
        i < records.len(),
    ensures
        match r {
            Some(j) => prefix_clash(named_views(records@), i as int, j as int) && prefix_unseen(
                named_views(records@),
                i as int,
                j as int,
            ),
            None => prefix_unseen(named_views(records@), i as int, i as int),
        },
{
    let ghost rs = named_views(records@);
    let mut j: usize = 0;
    while j < i
        invariant
            j <= i < records.len(),
            rs == named_views(records@),
            prefix_unseen(rs, i as int, j as int),
        decreases i - j,
    {
        if records[j].record.prefix == records[i].record.prefix {
            return Some(j);
        }
        j = j + 1;
    }
    None
}

/// The earliest record before the one at `i` that has its identifier.
fn find_identifier_clash(records: &Vec<NamedRecord>, i: usize) -> (r: Option<usize>)
    requires
        i < records.len(),
    ensures
        match r {
            Some(j) => identifier_clash(named_views(records@), i as int, j as int)
                && identifier_unseen(named_views(records@), i as int, j as int),
            None => identifier_unseen(named_views(records@), i as int, i as int),
        },
{
    let ghost rs = named_views(records@);
    let mut j: usize = 0;
    while j < i
        invariant
            j <= i < records.len(),
            rs == named_views(records@),
            identifier_unseen(rs, i as int, j as int),
        decreases i - j,
    {
        if same_text(records[j].identifier.as_str(), records[i].identifier.as_str()) {
            return Some(j);
        }
        j = j + 1;
    }
    None
}

/// Whether the record names no signature scheme or one of the four.
fn has_known_signature(record: &AccountRecord) -> (r: bool)
    ensures
        r == signature_known(record@),
{
    match &record.standard_account {
        Some(name) => parse_signature_kind(name.as_str()).is_some(),
        None => true,
    }
}

/// Checks the record at `i` against the rules, in their order.
fn check_record(records: &Vec<NamedRecord>, i: usize) -> (r: Result<(), RegistryError>)
    requires
        i < records.len(),
    ensures
        match r {
            Ok(_) => record_passes(named_views(records@), i as int),
            Err(e) => first_broken_rule(named_views(records@), i as int, e),
        },
{
    let named = &records[i];
    if let Some(clash) = find_prefix_clash(records, i) {
        return Err(RegistryError::DuplicatePrefix { index: i, clash });
    }
    if let Some(clash) = find_identifier_clash(records, i) {
        return Err(RegistryError::DuplicateNetwork { index: i, clash });
    }
    if named.record.network.as_str().is_empty() {
        return Err(RegistryError::EmptyNetwork { index: i });
    }
    if let Err(reason) = check_identifier(named.identifier.as_str()) {
        return Err(RegistryError::InvalidIdentifier { index: i, reason });
    }
    if named.record.symbols.len() != named.record.decimals.len() {
        return Err(RegistryError::SymbolDecimalMismatch { index: i });
    }
    if !has_known_signature(&named.record) {
        return Err(RegistryError::UnknownSignatureKind { index: i });
    }
    Ok(())
}

/// Validates records whose identifiers have been derived: the first record that breaks a rule
/// ends the walk.
pub fn validate_named(records: &Vec<NamedRecord>) -> (r: Result<(), RegistryError>)
    ensures
        validation_outcome(named_views(records@), r),
{
    let mut i: usize = 0;
    while i < records.len()
        invariant
            i <= records.len(),
            all_pass_before(named_views(records@), i as int),
        decreases records.len() - i,
    {
        if let Err(e) = check_record(records, i) {
            return Err(e);
        }
        i = i + 1;
    }
    Ok(())
}

/// Derives the identifier of every record of a document.
pub fn annotate(records: Vec<AccountRecord>) -> (named: Vec<NamedRecord>)
    ensures
        named_views(named@) == annotated(record_views(records@)),
{
    let ghost rs = record_views(records@);
    let mut named: Vec<NamedRecord> = Vec::new();
    for record in it: records
        invariant
            rs == record_views(it.seq()),
            named.len() == it.index(),
            forall|k: int| 0 <= k < it.index() ==> (#[trigger] named@[k])@ == annotated(rs)[k],
    {
        let identifier = derive_identifier(record.network.as_str());
        named.push(NamedRecord { record, identifier });
    }
    assert(named_views(named@) =~= annotated(rs));
    named
}

/// Validates a registry document.
pub fn validate(records: Vec<AccountRecord>) -> (r: Result<(), RegistryError>)
    ensures
        validation_outcome(annotated(record_views(records@)), r),
{
    let named = annotate(records);
    validate_named(&named)
}

} // verus!
