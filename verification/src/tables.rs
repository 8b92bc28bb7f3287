//! The table builder: from the records of a document to the lookup tables of a registry.

use crate::record::{
    named_views, same_text, AccountRecord, NamedRecord, NamedRecordView, RecordView,
};
use crate::runs::{consecutive_runs, run_ends, run_starts};
use crate::sort::{is_permutation, sorted_positions, Precedence};
use crate::text::{
    compare_text, lemma_text_lt_asymmetric, lemma_text_lt_total, lemma_text_lt_transitive, text_lt,
    Order,
};
use vstd::prelude::*;
use vstd::string::StringExecFns;

verus! {

/// The name and the number of decimals of a token.
#[derive(Debug)]
pub struct TokenAttributes {
    pub name: String,
    pub decimals: u8,
}

/// What a token's attributes hold.
pub struct TokenView {
    pub name: Seq<char>,
    pub decimals: u8,
}

impl View for TokenAttributes {
    type V = TokenView;

    open spec fn view(&self) -> TokenView {
        TokenView { name: self.name@, decimals: self.decimals }
    }
}

/// One row of the tables: what becomes one variant of the enumeration of networks.
#[derive(Debug)]
pub struct TableEntry {
    /// The position of the record in the document.
    pub source: usize,
    /// The variant's identifier.
    pub identifier: String,
    /// The variant's number.
    pub prefix: u16,
    /// The network's name.
    pub network: String,
    /// The variant's documentation.
    pub description: String,
    /// Whether the prefix is reserved.
    pub reserved: bool,
    /// The network's tokens, as positions in the token table, in the order of the record.
    pub tokens: Vec<usize>,
}

/// What a row holds.
pub struct EntryView {
    pub source: usize,
    pub identifier: Seq<char>,
    pub prefix: u16,
    pub network: Seq<char>,
    pub description: Seq<char>,
    pub reserved: bool,
    pub tokens: Seq<usize>,
}

impl View for TableEntry {
    type V = EntryView;

    open spec fn view(&self) -> EntryView {
        EntryView {
            source: self.source,
            identifier: self.identifier@,
            prefix: self.prefix,
            network: self.network@,
            description: self.description@,
            reserved: self.reserved,
            tokens: self.tokens@,
        }
    }
}

/// The tables of a registry.
#[derive(Debug)]
pub struct RegistryTables {
    /// The rows, sorted by network name.
    pub entries: Vec<TableEntry>,
    /// For each prefix the position of its row, sorted by prefix.
    pub prefix_to_index: Vec<(u16, usize)>,
    /// The prefixes of the reserved rows, in the order of the rows.
    pub reserved_prefixes: Vec<u16>,
    /// The first prefix of each run of consecutive prefixes.
    pub run_starts: Vec<u16>,
    /// The last prefix of each run, in the order of `run_starts`.
    pub run_ends: Vec<u16>,
    /// Every token that a record mentions, once.
    pub tokens: Vec<TokenAttributes>,
}

/// What the tables hold.
pub struct TablesView {
    pub entries: Seq<EntryView>,
    pub prefix_to_index: Seq<(u16, usize)>,
    pub reserved_prefixes: Seq<u16>,
    pub run_starts: Seq<u16>,
    pub run_ends: Seq<u16>,
    pub tokens: Seq<TokenView>,
}

/// The views of a list of rows.
pub open spec fn entry_views(v: Seq<TableEntry>) -> Seq<EntryView> {
    v.map_values(|e: TableEntry| e@)
}

/// The views of a list of tokens.
pub open spec fn token_views(v: Seq<TokenAttributes>) -> Seq<TokenView> {
    v.map_values(|t: TokenAttributes| t@)
}

impl View for RegistryTables {
    type V = TablesView;

    open spec fn view(&self) -> TablesView {
        TablesView {
            entries: entry_views(self.entries@),
            prefix_to_index: self.prefix_to_index@,
            reserved_prefixes: self.reserved_prefixes@,
            run_starts: self.run_starts@,
            run_ends: self.run_ends@,
            tokens: token_views(self.tokens@),
        }
    }
}

/// The documentation of a record's variant: the display name, and the website where there
/// is one.
pub open spec fn description_of(r: RecordView) -> Seq<char> {
    match r.website {
        Some(site) => r.display_name + seq![' ', '-', ' ', '<'] + site + seq!['>'],
        None => r.display_name,
    }
}

/// The number of tokens of a record: a symbol counts where a decimal count stands beside it.
pub open spec fn pair_count(r: RecordView) -> int {
    if r.symbols.len() <= r.decimals.len() {
        r.symbols.len() as int
    } else {
        r.decimals.len() as int
    }
}

/// The number of tokens that the row of a record lists: a reserved record lists none.
pub open spec fn listed_count(r: RecordView) -> int {
    if r.is_reserved() {
        0
    } else {
        pair_count(r)
    }
}

/// The token of a record at position `k`.
pub open spec fn pair_at(r: RecordView, k: int) -> TokenView {
    TokenView { name: r.symbols[k], decimals: r.decimals[k] }
}

/// The table with `t` in it: appended where the table lacks it.
pub open spec fn with_token(table: Seq<TokenView>, t: TokenView) -> Seq<TokenView> {
    if table.contains(t) {
        table
    } else {
        table.push(t)
    }
}

/// The table with the first `k` tokens of `r` in it.
pub open spec fn with_pairs(table: Seq<TokenView>, r: RecordView, k: int) -> Seq<TokenView>
    decreases k,
{
    if k <= 0 {
        table
    } else {
        with_token(with_pairs(table, r, k - 1), pair_at(r, k - 1))
    }
}

/// The token table of the first `n` rows: every token that their records mention, in the
/// order of its first mention.
pub open spec fn token_table(rs: Seq<NamedRecordView>, entries: Seq<EntryView>, n: int) -> Seq<
    TokenView,
>
    decreases n,
{
    if n <= 0 {
        Seq::empty()
    } else {
        let r = rs[entries[n - 1].source as int].record;
        with_pairs(token_table(rs, entries, n - 1), r, pair_count(r))
    }
}

/// The record at `a` sorts before the one at `b`: by network name, and among equal names by
/// position.
pub open spec fn record_before(rs: Seq<NamedRecordView>, a: int, b: int) -> bool {
    text_lt(rs[a].record.network, rs[b].record.network) || (rs[a].record.network
        == rs[b].record.network && a < b)
}

/// The row at `a` sorts before the one at `b` in the prefix index: by prefix, and among equal
/// prefixes by position.
pub open spec fn index_before(entries: Seq<EntryView>, a: int, b: int) -> bool {
    entries[a].prefix < entries[b].prefix || (entries[a].prefix == entries[b].prefix && a < b)
}

/// The prefixes of the reserved rows among the first `n`, in order.
pub open spec fn reserved_before(entries: Seq<EntryView>, n: int) -> Seq<u16>
    decreases n,
{
    if n <= 0 {
        Seq::empty()
    } else if entries[n - 1].reserved {
        reserved_before(entries, n - 1).push(entries[n - 1].prefix)
    } else {
        reserved_before(entries, n - 1)
    }
}

/// The row `e` is made from the record at its source, and names the record's tokens by
/// their positions in `tokens`; the row of a reserved record names none.
pub open spec fn entry_matches(
    rs: Seq<NamedRecordView>,
    tokens: Seq<TokenView>,
    e: EntryView,
) -> bool {
    let r = rs[e.source as int].record;
    &&& e.source < rs.len()
    &&& e.identifier == rs[e.source as int].identifier
    &&& e.prefix == r.prefix
    &&& e.network == r.network
    &&& e.description == description_of(r)
    &&& e.reserved == r.is_reserved()
    &&& e.tokens.len() == listed_count(r)
    &&& forall|k: int|
        0 <= k < e.tokens.len() ==> (#[trigger] e.tokens[k]) < tokens.len()
            && tokens[e.tokens[k] as int] == pair_at(r, k)
}

/// The first components of a list of pairs.
pub open spec fn first_components(pairs: Seq<(u16, usize)>) -> Seq<u16> {
    pairs.map_values(|p: (u16, usize)| p.0)
}

/// The second components of a list of pairs.
pub open spec fn second_components(pairs: Seq<(u16, usize)>) -> Seq<usize> {
    pairs.map_values(|p: (u16, usize)| p.1)
}

/// The sources of a list of rows.
pub open spec fn sources(entries: Seq<EntryView>) -> Seq<usize> {
    entries.map_values(|e: EntryView| e.source)
}

/// The rows are the records, each once, sorted by network name.
pub open spec fn rows_compiled(rs: Seq<NamedRecordView>, t: TablesView) -> bool {
    &&& is_permutation(sources(t.entries), rs.len())
    &&& forall|i: int|
        0 <= i < t.entries.len() ==> entry_matches(rs, t.tokens, #[trigger] t.entries[i])
    &&& forall|i: int, j: int|
        0 <= i < j < t.entries.len() ==> record_before(
            rs,
            (#[trigger] t.entries[i]).source as int,
            (#[trigger] t.entries[j]).source as int,
        )
}

/// The prefix index lists every row once, under its prefix, sorted by prefix.
pub open spec fn index_compiled(t: TablesView) -> bool {
    &&& is_permutation(second_components(t.prefix_to_index), t.entries.len())
    &&& forall|k: int|
        0 <= k < t.prefix_to_index.len() ==> (#[trigger] t.prefix_to_index[k]).0
            == t.entries[t.prefix_to_index[k].1 as int].prefix
    &&& forall|a: int, b: int|
        0 <= a < b < t.prefix_to_index.len() ==> index_before(
            t.entries,
            (#[trigger] t.prefix_to_index[a]).1 as int,
            (#[trigger] t.prefix_to_index[b]).1 as int,
        )
}

/// `t` holds the tables of the document `rs`.
pub open spec fn is_compilation(rs: Seq<NamedRecordView>, t: TablesView) -> bool {
    &&& rows_compiled(rs, t)
    &&& index_compiled(t)
    &&& t.tokens == token_table(rs, t.entries, t.entries.len() as int)
    &&& t.reserved_prefixes == reserved_before(t.entries, t.entries.len() as int)
    &&& t.run_starts == run_starts(first_components(t.prefix_to_index))
    &&& t.run_ends == run_ends(first_components(t.prefix_to_index))
}

/// The order of the records of a document by network name.
pub struct ByNetwork<'a> {
    pub records: &'a Vec<NamedRecord>,
}

impl<'a> Precedence for ByNetwork<'a> {
    open spec fn size(&self) -> nat {
        self.records@.len()
    }

    open spec fn before(&self, a: int, b: int) -> bool {
        record_before(named_views(self.records@), a, b)
    }

    proof fn lemma_total(&self, a: int, b: int) {
        let rs = named_views(self.records@);
        if rs[a].record.network != rs[b].record.network {
            lemma_text_lt_total(rs[a].record.network, rs[b].record.network);
        }
    }

    proof fn lemma_transitive(&self, a: int, b: int, c: int) {
        let rs = named_views(self.records@);
        let x = rs[a].record.network;
        let y = rs[b].record.network;
        let z = rs[c].record.network;
        if text_lt(x, y) && text_lt(y, z) {
            lemma_text_lt_transitive(x, y, z);
        }
    }

    fn count(&self) -> (n: usize) {
        self.records.len()
    }

    fn precedes(&self, a: usize, b: usize) -> (r: bool) {
        let x = &self.records[a].record.network;
        let y = &self.records[b].record.network;
        proof {
            if text_lt(x@, y@) {
                lemma_text_lt_asymmetric(x@, y@);
            }
        }
        match compare_text(x.as_str(), y.as_str()) {
            Order::Less => true,
            Order::Equal => a < b,
            Order::Greater => false,
        }
    }
}

/// The order of the rows of a table by prefix.
pub struct ByPrefix<'a> {
    pub entries: &'a Vec<TableEntry>,
}

impl<'a> Precedence for ByPrefix<'a> {
    open spec fn size(&self) -> nat {
        self.entries@.len()
    }

    open spec fn before(&self, a: int, b: int) -> bool {
        index_before(entry_views(self.entries@), a, b)
    }

    proof fn lemma_total(&self, a: int, b: int) {
    }

    proof fn lemma_transitive(&self, a: int, b: int, c: int) {
    }

    fn count(&self) -> (n: usize) {
        self.entries.len()
    }

    fn precedes(&self, a: usize, b: usize) -> (r: bool) {
        let x = self.entries[a].prefix;
        let y = self.entries[b].prefix;
        x < y || (x == y && a < b)
    }
}

/// Writes the documentation of a record's variant.
fn describe(record: &AccountRecord) -> (r: String)
    ensures
        r@ == description_of(record@),
{
    let mut r = record.display_name.clone();
    match &record.website {
        Some(site) => {
            proof {
                reveal_strlit(" - <");
                reveal_strlit(">");
                assert(" - <"@ =~= seq![' ', '-', ' ', '<']);
                assert(">"@ =~= seq!['>']);
            }
            r.append(" - <");
            r.append(site.as_str());
            r.append(">");
        },
        None => {},
    }
    r
}

/// The position of a token in the table.
fn find_token(table: &Vec<TokenAttributes>, name: &str, decimals: u8) -> (r: Option<usize>)
    ensures
        match r {
            Some(i) => i < table.len() && token_views(table@)[i as int] == (TokenView {
                name: name@,
                decimals,
            }),
            None => !token_views(table@).contains(TokenView { name: name@, decimals }),
        },
{
    let ghost wanted = TokenView { name: name@, decimals };
    let mut i: usize = 0;
    while i < table.len()
        invariant
            i <= table.len(),
            wanted == (TokenView { name: name@, decimals }),
            forall|k: int| 0 <= k < i ==> token_views(table@)[k] != wanted,
        decreases table.len() - i,
    {
        if table[i].decimals == decimals && same_text(table[i].name.as_str(), name) {
            return Some(i);
        }
        i = i + 1;
    }
    None
}

/// Enters the tokens of a record into the table, each where the table lacks it, and gives
/// their positions in the order of the record.
fn intern_tokens(table: &mut Vec<TokenAttributes>, record: &AccountRecord) -> (positions: Vec<
    usize,
>)
    ensures
        token_views(final(table)@) == with_pairs(
            token_views(old(table)@),
            record@,
            pair_count(record@),
        ),
        token_views(old(table)@).is_prefix_of(token_views(final(table)@)),
        positions@.len() == pair_count(record@),
        forall|k: int|
            0 <= k < positions@.len() ==> (#[trigger] positions@[k]) < final(table)@.len()
                && token_views(final(table)@)[positions@[k] as int] == pair_at(record@, k),
{
    let ghost initial = token_views(table@);
    let count = if record.symbols.len() <= record.decimals.len() {
        record.symbols.len()
    } else {
        record.decimals.len()
    };
    let mut positions: Vec<usize> = Vec::new();
    let mut k: usize = 0;
    while k < count
        invariant
            k <= count,
            count == pair_count(record@),
            initial == token_views(old(table)@),
            token_views(table@) == with_pairs(initial, record@, k as int),
            initial.is_prefix_of(token_views(table@)),
            positions@.len() == k,
            forall|m: int|
                0 <= m < k ==> (#[trigger] positions@[m]) < table@.len() && token_views(
                    table@,
                )[positions@[m] as int] == pair_at(record@, m),
        decreases count - k,
    {
        let symbol = &record.symbols[k];
        let decimals = record.decimals[k];
        let ghost before = token_views(table@);
        assert(pair_at(record@, k as int) == (TokenView { name: symbol@, decimals }));
        match find_token(table, symbol.as_str(), decimals) {
            Some(i) => {
                positions.push(i);
            },
            None => {
                positions.push(table.len());
                table.push(TokenAttributes { name: symbol.clone(), decimals });
                assert(token_views(table@) =~= before.push(pair_at(record@, k as int)));
            },
        }
        k = k + 1;
    }
    positions
}

/// Builds the tables of a document whose identifiers have been derived.
pub fn build_tables(records: &Vec<NamedRecord>) -> (tables: RegistryTables)
    ensures
        is_compilation(named_views(records@), tables@),
{
    let ghost rs = named_views(records@);
    let n = records.len();
    let by_network = ByNetwork { records };
    let order = sorted_positions(&by_network);
    let mut tokens: Vec<TokenAttributes> = Vec::new();
    let mut entries: Vec<TableEntry> = Vec::new();
    let mut reserved_prefixes: Vec<u16> = Vec::new();
    let mut i: usize = 0;
    while i < n
        invariant
            i <= n,
            n == records.len(),
            rs == named_views(records@),
            is_permutation(order@, n as nat),
            entries.len() == i,
            forall|m: int| 0 <= m < i ==> (#[trigger] entry_views(entries@)[m]).source == order@[m],
            forall|m: int|
                0 <= m < i ==> entry_matches(
                    rs,
                    token_views(tokens@),
                    #[trigger] entry_views(entries@)[m],
                ),
            token_views(tokens@) == token_table(rs, entry_views(entries@), i as int),
            reserved_prefixes@ == reserved_before(entry_views(entries@), i as int),
        decreases n - i,
    {
        let source = order[i];
        let named = &records[source];
        let ghost old_tokens = token_views(tokens@);
        let ghost old_entries = entry_views(entries@);
        let positions = intern_tokens(&mut tokens, &named.record);
        let reserved = named.record.is_reserved();
        let listed = if reserved {
            Vec::new()
        } else {
            positions
        };
        let entry = TableEntry {
            source,
            identifier: named.identifier.clone(),
            prefix: named.record.prefix,
            network: named.record.network.clone(),
            description: describe(&named.record),
            reserved,
            tokens: listed,
        };
        if entry.reserved {
            reserved_prefixes.push(entry.prefix);
        }
        entries.push(entry);
        proof {
            let new_entries = entry_views(entries@);
            assert(new_entries.take(i as int) =~= old_entries);
            assert forall|m: int| 0 <= m < i + 1 implies (#[trigger] new_entries[m]).source
                == order@[m] by {
                if m < i {
                    assert(new_entries[m] == old_entries[m]);
                }
            }
            assert forall|m: int| 0 <= m < i + 1 implies entry_matches(
                rs,
                token_views(tokens@),
                #[trigger] new_entries[m],
            ) by {
                if m < i {
                    assert(new_entries[m] == old_entries[m]);
                    assert(entry_matches(rs, old_tokens, old_entries[m]));
                }
            }
            lemma_token_table_ignores_later_rows(rs, old_entries, new_entries, i as int);
            lemma_reserved_ignores_later_rows(old_entries, new_entries, i as int);
        }
        i = i + 1;
    }
    let by_prefix = ByPrefix { entries: &entries };
    let positions = sorted_positions(&by_prefix);
    let mut prefix_to_index: Vec<(u16, usize)> = Vec::new();
    let mut ordered_prefixes: Vec<u16> = Vec::new();
    let mut k: usize = 0;
    while k < n
        invariant
            k <= n,
            n == entries.len(),
            is_permutation(positions@, n as nat),
            prefix_to_index.len() == k,
            ordered_prefixes.len() == k,
            forall|m: int|
                0 <= m < k ==> (#[trigger] prefix_to_index@[m]).1 == positions@[m]
                    && prefix_to_index@[m].0 == entry_views(entries@)[positions@[m] as int].prefix,
            forall|m: int|
                0 <= m < k ==> (#[trigger] ordered_prefixes@[m]) == prefix_to_index@[m].0,
        decreases n - k,
    {
        let position = positions[k];
        let prefix = entries[position].prefix;
        prefix_to_index.push((prefix, position));
        ordered_prefixes.push(prefix);
        k = k + 1;
    }
    let (run_starts, run_ends) = consecutive_runs(ordered_prefixes.as_slice());
    let tables = RegistryTables {
        entries,
        prefix_to_index,
        reserved_prefixes,
        run_starts,
        run_ends,
        tokens,
    };
    proof {
        let t = tables@;
        assert(sources(t.entries) =~= order@);
        assert(second_components(t.prefix_to_index) =~= positions@);
        assert(first_components(t.prefix_to_index) =~= ordered_prefixes@);
        assert forall|a: int, b: int| 0 <= a < b < t.entries.len() implies record_before(
            rs,
            (#[trigger] t.entries[a]).source as int,
            (#[trigger] t.entries[b]).source as int,
        ) by {
            assert(by_network.before(order@[a] as int, order@[b] as int));
        }
        assert forall|a: int, b: int| 0 <= a < b < t.prefix_to_index.len() implies index_before(
            t.entries,
            (#[trigger] t.prefix_to_index[a]).1 as int,
            (#[trigger] t.prefix_to_index[b]).1 as int,
        ) by {
            assert(by_prefix.before(positions@[a] as int, positions@[b] as int));
        }
    }
    tables
}

/// The token table of the first `n` rows does not depend on the rows behind them.
proof fn lemma_token_table_ignores_later_rows(
    rs: Seq<NamedRecordView>,
    short: Seq<EntryView>,
    long: Seq<EntryView>,
    n: int,
)
    requires
        0 <= n <= short.len(),
        short.is_prefix_of(long),
    ensures
        token_table(rs, long, n) == token_table(rs, short, n),
    decreases n,
{
    if n > 0 {
        lemma_token_table_ignores_later_rows(rs, short, long, n - 1);
    }
}

/// The reserved prefixes of the first `n` rows do not depend on the rows behind them.
proof fn lemma_reserved_ignores_later_rows(short: Seq<EntryView>, long: Seq<EntryView>, n: int)
    requires
        0 <= n <= short.len(),
        short.is_prefix_of(long),
    ensures
        reserved_before(long, n) == reserved_before(short, n),
    decreases n,
{
    if n > 0 {
        lemma_reserved_ignores_later_rows(short, long, n - 1);
    }
}

} // verus!
