//! The pipeline from a registry document to its tables, and what holds of the tables of a
//! valid document.

use crate::ident::identifier_of;
use crate::record::{record_views, AccountRecord, NamedRecordView, RecordView};
use crate::runs::{
    in_some_run, lemma_run_unique, lemma_runs_cover, run_holds, runs_separated, strictly_ascending,
};
use crate::sort::{is_asymmetric, lemma_sorted_decided, sorted_by};
use crate::tables::{
    build_tables, entry_matches, first_components, index_before, is_compilation, pair_count,
    record_before, reserved_before, second_components, sources, token_table, with_pairs,
    EntryView, RegistryTables, TablesView, TokenView,
};
use crate::text::text_lt;
use crate::validate::{
    annotate, annotated, identifier_clash, is_valid, prefix_clash, record_passes, validate_named,
    validation_outcome, RegistryError,
};
use vstd::prelude::*;

verus! {

/// Compiles a registry document: derives the identifiers, validates, and builds the tables.
/// A document that breaks a rule gives the error of its first broken rule and no tables.
pub fn compile(records: Vec<AccountRecord>) -> (r: Result<RegistryTables, RegistryError>)
    ensures
        match r {
            Ok(tables) => is_valid(annotated(record_views(records@))) && is_compilation(
                annotated(record_views(records@)),
                tables@,
            ),
            Err(e) => validation_outcome(annotated(record_views(records@)), Err(e)),
        },
{
    let named = annotate(records);
    match validate_named(&named) {
        Ok(_) => Ok(build_tables(&named)),
        Err(e) => Err(e),
    }
}

/// Every record carries the identifier derived from its network name.
pub open spec fn identifiers_derived(rs: Seq<NamedRecordView>) -> bool {
    forall|i: int|
        0 <= i < rs.len() ==> (#[trigger] rs[i]).identifier == identifier_of(
            rs[i].record.network,
        )
}

/// No two records have the same prefix.
pub open spec fn prefixes_distinct(rs: Seq<NamedRecordView>) -> bool {
    forall|i: int, j: int|
        0 <= i < j < rs.len() ==> (#[trigger] rs[i]).record.prefix != (
        #[trigger] rs[j]).record.prefix
}

/// No two records have the same network name.
pub open spec fn networks_distinct(rs: Seq<NamedRecordView>) -> bool {
    forall|i: int, j: int|
        0 <= i < j < rs.len() ==> (#[trigger] rs[i]).record.network != (
        #[trigger] rs[j]).record.network
}

/// Some row of the tables has the prefix `p`.
pub open spec fn is_known(t: TablesView, p: u16) -> bool {
    exists|i: int| 0 <= i < t.entries.len() && (#[trigger] t.entries[i]).prefix == p
}

/// Some row of the tables is made from the record at position `s`.
pub open spec fn has_row(t: TablesView, s: int) -> bool {
    exists|i: int| 0 <= i < t.entries.len() && (#[trigger] t.entries[i]).source == s
}

/// The records of an annotated document are annotated.
pub proof fn lemma_annotated_is_derived(rs: Seq<RecordView>)
    ensures
        identifiers_derived(annotated(rs)),
{
}

/// In a valid document no prefix occurs twice, and where the identifiers are derived from the
/// network names, no network name does.
pub proof fn lemma_valid_is_distinct(rs: Seq<NamedRecordView>)
    requires
        is_valid(rs),
    ensures
        prefixes_distinct(rs),
        identifiers_derived(rs) ==> networks_distinct(rs),
{
    assert forall|i: int, j: int|
        0 <= i < j < rs.len() implies (#[trigger] rs[i]).record.prefix != (
    #[trigger] rs[j]).record.prefix by {
        assert(record_passes(rs, j));
        assert(!prefix_clash(rs, j, i));
    }
    if identifiers_derived(rs) {
        assert forall|i: int, j: int| 0 <= i < j < rs.len() implies (
        #[trigger] rs[i]).record.network != (#[trigger] rs[j]).record.network by {
            assert(record_passes(rs, j));
            assert(!identifier_clash(rs, j, i));
        }
    }
}

/// Index alignment: each row has the identifier, the prefix and the network name of one and
/// the same record, and every record has its row.
pub proof fn lemma_rows_aligned(rs: Seq<NamedRecordView>, t: TablesView)
    requires
        is_compilation(rs, t),
    ensures
        t.entries.len() == rs.len(),
        forall|i: int|
            0 <= i < t.entries.len() ==> {
                let e = #[trigger] t.entries[i];
                &&& e.source < rs.len()
                &&& e.identifier == rs[e.source as int].identifier
                &&& e.prefix == rs[e.source as int].record.prefix
                &&& e.network == rs[e.source as int].record.network
            },
        forall|s: int| 0 <= s < rs.len() ==> #[trigger] has_row(t, s),
{
    assert(sources(t.entries).len() == t.entries.len());
    assert forall|s: int| 0 <= s < rs.len() implies #[trigger] has_row(t, s) by {
        crate::sort::lemma_permutation_onto(sources(t.entries), s);
        let i = choose|i: int| 0 <= i < t.entries.len() && sources(t.entries)[i] == s;
        assert(t.entries[i].source == s);
    }
}

/// The names of the rows ascend strictly: the name table can be searched by bisection.
pub proof fn lemma_names_ascend(rs: Seq<NamedRecordView>, t: TablesView)
    requires
        is_compilation(rs, t),
        networks_distinct(rs),
    ensures
        forall|i: int, j: int|
            0 <= i < j < t.entries.len() ==> text_lt(
                (#[trigger] t.entries[i]).network,
                (#[trigger] t.entries[j]).network,
            ),
{
    assert forall|i: int, j: int| 0 <= i < j < t.entries.len() implies text_lt(
        (#[trigger] t.entries[i]).network,
        (#[trigger] t.entries[j]).network,
    ) by {
        let a = t.entries[i].source as int;
        let b = t.entries[j].source as int;
        assert(sources(t.entries)[i] == a && sources(t.entries)[j] == b);
        assert(record_before(rs, a, b));
        if a < b {
            assert(rs[a].record.network != rs[b].record.network);
        } else {
            assert(rs[b].record.network != rs[a].record.network);
        }
    }
}

/// The prefix index ascends strictly by prefix, and its second components are the positions
/// of the rows, each once.
pub proof fn lemma_index_ascends(rs: Seq<NamedRecordView>, t: TablesView)
    requires
        is_compilation(rs, t),
        prefixes_distinct(rs),
    ensures
        strictly_ascending(first_components(t.prefix_to_index)),
        crate::sort::is_permutation(second_components(t.prefix_to_index), t.entries.len()),
{
    let firsts = first_components(t.prefix_to_index);
    assert forall|a: int, b: int| 0 <= a < b < firsts.len() implies firsts[a] < firsts[b] by {
        let x = t.prefix_to_index[a].1 as int;
        let y = t.prefix_to_index[b].1 as int;
        assert(second_components(t.prefix_to_index)[a] == x);
        assert(second_components(t.prefix_to_index)[b] == y);
        assert(index_before(t.entries, x, y));
        lemma_rows_differ(rs, t, x, y);
    }
}

/// Two different rows of the tables of a document with distinct prefixes differ in prefix.
proof fn lemma_rows_differ(rs: Seq<NamedRecordView>, t: TablesView, x: int, y: int)
    requires
        is_compilation(rs, t),
        prefixes_distinct(rs),
        0 <= x < t.entries.len(),
        0 <= y < t.entries.len(),
        x != y,
    ensures
        t.entries[x].prefix != t.entries[y].prefix,
{
    let a = t.entries[x].source as int;
    let b = t.entries[y].source as int;
    assert(sources(t.entries)[x] == a && sources(t.entries)[y] == b);
    assert(a != b);
    if a < b {
        assert(rs[a].record.prefix != rs[b].record.prefix);
    } else {
        assert(rs[b].record.prefix != rs[a].record.prefix);
    }
}

/// The runs hold exactly the known prefixes, each in one run only.
pub proof fn lemma_runs_hold_known(rs: Seq<NamedRecordView>, t: TablesView)
    requires
        is_compilation(rs, t),
        prefixes_distinct(rs),
    ensures
        runs_separated(t.run_starts, t.run_ends),
        forall|p: u16| #[trigger] in_some_run(t.run_starts, t.run_ends, p) <==> is_known(t, p),
        forall|p: u16, j: int, k: int|
            run_holds(t.run_starts, t.run_ends, j, p) && run_holds(t.run_starts, t.run_ends, k, p)
                ==> j == k,
{
    let firsts = first_components(t.prefix_to_index);
    let seconds = second_components(t.prefix_to_index);
    lemma_index_ascends(rs, t);
    lemma_runs_cover(firsts);
    assert forall|p: u16| #[trigger] in_some_run(t.run_starts, t.run_ends, p) <==> is_known(
        t,
        p,
    ) by {
        if firsts.contains(p) {
            let k = choose|k: int| 0 <= k < firsts.len() && firsts[k] == p;
            let i = t.prefix_to_index[k].1 as int;
            assert(seconds[k] == i);
            assert(t.entries[i].prefix == p);
        }
        if is_known(t, p) {
            let i = choose|i: int|
                0 <= i < t.entries.len() && (#[trigger] t.entries[i]).prefix == p;
            crate::sort::lemma_permutation_onto(seconds, i);
            let k = choose|k: int| 0 <= k < seconds.len() && seconds[k] == i;
            assert(t.prefix_to_index[k].1 == i);
            assert(firsts[k] == p);
        }
    }
    assert forall|p: u16, j: int, k: int|
        run_holds(t.run_starts, t.run_ends, j, p) && run_holds(
            t.run_starts,
            t.run_ends,
            k,
            p,
        ) implies j == k by {
        lemma_run_unique(t.run_starts, t.run_ends, j, k, p);
    }
}

/// One of the first `n` rows is reserved and has the prefix `p`.
pub open spec fn reserved_row_before(entries: Seq<EntryView>, n: int, p: u16) -> bool {
    exists|i: int| 0 <= i < n && (#[trigger] entries[i]).reserved && entries[i].prefix == p
}

/// A prefix is among the first `n` reserved ones exactly when one of the first `n` rows is
/// reserved and has it.
proof fn lemma_reserved_before(entries: Seq<EntryView>, n: int, p: u16)
    requires
        0 <= n <= entries.len(),
    ensures
        reserved_before(entries, n).contains(p) <==> reserved_row_before(entries, n, p),
    decreases n,
{
    if n > 0 {
        lemma_reserved_before(entries, n - 1, p);
        let shorter = reserved_before(entries, n - 1);
        if entries[n - 1].reserved {
            let longer = shorter.push(entries[n - 1].prefix);
            if longer.contains(p) {
                let k = choose|k: int| 0 <= k < longer.len() && longer[k] == p;
                if k < shorter.len() {
                    assert(shorter[k] == p);
                    assert(shorter.contains(p));
                } else {
                    assert(entries[n - 1].reserved && entries[n - 1].prefix == p);
                }
            }
            if reserved_row_before(entries, n, p) {
                let i = choose|i: int|
                    0 <= i < n && (#[trigger] entries[i]).reserved && entries[i].prefix == p;
                if i < n - 1 {
                    assert(shorter.contains(p));
                    let k = choose|k: int| 0 <= k < shorter.len() && shorter[k] == p;
                    assert(longer[k] == p);
                } else {
                    assert(longer[longer.len() - 1] == p);
                }
            }
        }
    }
}

/// The reserved prefixes are those of the records that name no signature scheme: the prefix
/// of a record is listed exactly when the record is reserved.
pub proof fn lemma_reserved_listed(rs: Seq<NamedRecordView>, t: TablesView, s: int)
    requires
        is_compilation(rs, t),
        prefixes_distinct(rs),
        0 <= s < rs.len(),
    ensures
        t.reserved_prefixes.contains(rs[s].record.prefix) <==> rs[s].record.is_reserved(),
{
    let p = rs[s].record.prefix;
    let n = t.entries.len() as int;
    lemma_rows_aligned(rs, t);
    lemma_reserved_before(t.entries, n, p);
    assert(has_row(t, s));
    let x = choose|i: int| 0 <= i < t.entries.len() && (#[trigger] t.entries[i]).source == s;
    assert(t.entries[x].prefix == p && t.entries[x].reserved == rs[s].record.is_reserved());
    if t.reserved_prefixes.contains(p) {
        let i = choose|i: int|
            0 <= i < n && (#[trigger] t.entries[i]).reserved && t.entries[i].prefix == p;
        if i != x {
            lemma_rows_differ(rs, t, i, x);
        }
    }
}

/// The token table of the first `n` rows depends on the sources of the rows only.
proof fn lemma_token_table_by_sources(
    rs: Seq<NamedRecordView>,
    a: Seq<EntryView>,
    b: Seq<EntryView>,
    n: int,
)
    requires
        sources(a) == sources(b),
        0 <= n <= a.len(),
    ensures
        token_table(rs, a, n) == token_table(rs, b, n),
    decreases n,
{
    if n > 0 {
        lemma_token_table_by_sources(rs, a, b, n - 1);
        assert(sources(a).len() == a.len() && sources(b).len() == b.len());
        assert(sources(a)[n - 1] == a[n - 1].source);
        assert(sources(b)[n - 1] == b[n - 1].source);
    }
}

/// Entering the tokens of a record into a table without duplicates leaves it so.
proof fn lemma_with_pairs_distinct(table: Seq<TokenView>, r: RecordView, k: int)
    requires
        table.no_duplicates(),
    ensures
        with_pairs(table, r, k).no_duplicates(),
    decreases k,
{
    if k > 0 {
        lemma_with_pairs_distinct(table, r, k - 1);
    }
}

/// No token stands twice in a token table.
proof fn lemma_token_table_distinct(rs: Seq<NamedRecordView>, entries: Seq<EntryView>, n: int)
    ensures
        token_table(rs, entries, n).no_duplicates(),
    decreases n,
{
    if n > 0 {
        lemma_token_table_distinct(rs, entries, n - 1);
        let r = rs[entries[n - 1].source as int].record;
        lemma_with_pairs_distinct(token_table(rs, entries, n - 1), r, pair_count(r));
    }
}

/// A document has one set of tables: what `is_compilation` admits is decided by the
/// document.
pub proof fn law_tables_decided(rs: Seq<NamedRecordView>, a: TablesView, b: TablesView)
    requires
        is_compilation(rs, a),
        is_compilation(rs, b),
    ensures
        a == b,
{
    let n = rs.len() as int;
    let by_network = |x: int, y: int| record_before(rs, x, y);
    assert(is_asymmetric(by_network)) by {
        assert forall|x: int, y: int| #![trigger by_network(x, y)]
            !(by_network(x, y) && by_network(y, x)) by {
            if text_lt(rs[x].record.network, rs[y].record.network) {
                crate::text::lemma_text_lt_asymmetric(rs[x].record.network, rs[y].record.network);
            }
            if text_lt(rs[y].record.network, rs[x].record.network) {
                crate::text::lemma_text_lt_asymmetric(rs[y].record.network, rs[x].record.network);
            }
        }
    }
    assert(sorted_by(by_network, sources(a.entries))) by {
        assert forall|i: int, j: int| 0 <= i < j < sources(a.entries).len() implies by_network(
            #[trigger] sources(a.entries)[i] as int,
            #[trigger] sources(a.entries)[j] as int,
        ) by {
            assert(record_before(rs, a.entries[i].source as int, a.entries[j].source as int));
        }
    }
    assert(sorted_by(by_network, sources(b.entries))) by {
        assert forall|i: int, j: int| 0 <= i < j < sources(b.entries).len() implies by_network(
            #[trigger] sources(b.entries)[i] as int,
            #[trigger] sources(b.entries)[j] as int,
        ) by {
            assert(record_before(rs, b.entries[i].source as int, b.entries[j].source as int));
        }
    }
    lemma_sorted_decided(by_network, sources(a.entries), sources(b.entries));
    lemma_token_table_by_sources(rs, a.entries, b.entries, n);
    lemma_token_table_distinct(rs, a.entries, n);
    assert(a.tokens == b.tokens);
    assert(a.entries =~= b.entries) by {
        assert forall|i: int| 0 <= i < n implies a.entries[i] == b.entries[i] by {
            let x = a.entries[i];
            let y = b.entries[i];
            assert(sources(a.entries)[i] == x.source && sources(b.entries)[i] == y.source);
            assert(entry_matches(rs, a.tokens, x));
            assert(entry_matches(rs, b.tokens, y));
            assert(x.tokens =~= y.tokens) by {
                assert forall|k: int| 0 <= k < x.tokens.len() implies x.tokens[k]
                    == y.tokens[k] by {
                    assert(a.tokens[x.tokens[k] as int] == a.tokens[y.tokens[k] as int]);
                }
            }
        }
    }
    let by_prefix = |x: int, y: int| index_before(a.entries, x, y);
    assert(is_asymmetric(by_prefix));
    assert(sorted_by(by_prefix, second_components(a.prefix_to_index))) by {
        assert forall|i: int, j: int|
            0 <= i < j < second_components(a.prefix_to_index).len() implies by_prefix(
            #[trigger] second_components(a.prefix_to_index)[i] as int,
            #[trigger] second_components(a.prefix_to_index)[j] as int,
        ) by {
            assert(index_before(
                a.entries,
                a.prefix_to_index[i].1 as int,
                a.prefix_to_index[j].1 as int,
            ));
        }
    }
    assert(sorted_by(by_prefix, second_components(b.prefix_to_index))) by {
        assert forall|i: int, j: int|
            0 <= i < j < second_components(b.prefix_to_index).len() implies by_prefix(
            #[trigger] second_components(b.prefix_to_index)[i] as int,
            #[trigger] second_components(b.prefix_to_index)[j] as int,
        ) by {
            assert(index_before(
                b.entries,
                b.prefix_to_index[i].1 as int,
                b.prefix_to_index[j].1 as int,
            ));
        }
    }
    lemma_sorted_decided(
        by_prefix,
        second_components(a.prefix_to_index),
        second_components(b.prefix_to_index),
    );
    assert(a.prefix_to_index =~= b.prefix_to_index) by {
        assert forall|k: int| 0 <= k < n implies a.prefix_to_index[k] == b.prefix_to_index[k] by {
            assert(second_components(a.prefix_to_index)[k] == a.prefix_to_index[k].1);
            assert(second_components(b.prefix_to_index)[k] == b.prefix_to_index[k].1);
        }
    }
}

} // verus!
