//! The document behind the compiled registry: which records the registry was compiled
//! from, and the proof that its tables are the ones that the table builder makes of them.

use crate::compile::law_tables_decided;
use crate::laws::{law_prefix_index_sorted, law_reserved_have_no_tokens, law_run_tables};
use crate::lookup::lemma_names_ascending;
use crate::record::{signature_kind_of, NamedRecordView, RecordView};
use crate::registry::{
    account_of, formats, names, network_of, prefix_index, prefix_of, reserved_prefixes,
    run_ends_table, run_starts_table, token_decimals, token_name, tokens_of,
    Ss58AddressFormatRegistry, TokenRegistry,
};
use crate::sort::is_permutation;
use crate::tables::{
    description_of, entry_matches, index_before, index_compiled, is_compilation, pair_at,
    pair_count, record_before, reserved_before, rows_compiled, sources, token_table, with_pairs,
    EntryView, TablesView, TokenView,
};
use vstd::prelude::*;

verus! {

/// The tokens of the known networks, in the order of their first mention along `formats`.
pub open spec fn token_list() -> Seq<TokenRegistry> {
    seq![
        TokenRegistry::Aca,
        TokenRegistry::Astr,
        TokenRegistry::Bnc,
        TokenRegistry::Ring,
        TokenRegistry::Kton,
        TokenRegistry::Edg,
        TokenRegistry::Teer,
        TokenRegistry::Kar,
        TokenRegistry::Klp,
        TokenRegistry::Ksm,
        TokenRegistry::Lami,
        TokenRegistry::Pdex,
        TokenRegistry::Dot,
        TokenRegistry::Polyx,
        TokenRegistry::Rey,
        TokenRegistry::Syn,
        TokenRegistry::Totem,
    ]
}

/// The position of a token in `token_list`.
pub open spec fn token_position(token: TokenRegistry) -> int {
    match token {
        TokenRegistry::Aca => 0,
        TokenRegistry::Astr => 1,
        TokenRegistry::Bnc => 2,
        TokenRegistry::Ring => 3,
        TokenRegistry::Kton => 4,
        TokenRegistry::Edg => 5,
        TokenRegistry::Teer => 6,
        TokenRegistry::Kar => 7,
        TokenRegistry::Klp => 8,
        TokenRegistry::Ksm => 9,
        TokenRegistry::Lami => 10,
        TokenRegistry::Pdex => 11,
        TokenRegistry::Dot => 12,
        TokenRegistry::Polyx => 13,
        TokenRegistry::Rey => 14,
        TokenRegistry::Syn => 15,
        TokenRegistry::Totem => 16,
    }
}

/// The attributes of a token.
pub open spec fn token_view(token: TokenRegistry) -> TokenView {
    TokenView { name: token_name(token), decimals: token_decimals(token) }
}

/// The attributes of the tokens of `token_list`.
pub open spec fn token_views() -> Seq<TokenView> {
    token_list().map_values(|token: TokenRegistry| token_view(token))
}

/// The record `r` is the one that the known format `format` was compiled from.
pub open spec fn record_matches(r: RecordView, format: Ss58AddressFormatRegistry) -> bool {
    &&& r.prefix == prefix_of(format)
    &&& r.network == network_of(format)
    &&& match r.standard_account {
        Some(name) => account_of(format) is Some && signature_kind_of(name) == account_of(format),
        None => account_of(format) is None,
    }
    &&& r.symbols == tokens_of(format).map_values(|token: TokenRegistry| token_name(token))
    &&& r.decimals == tokens_of(format).map_values(|token: TokenRegistry| token_decimals(token))
}

/// `rs` is a document of the registry: it holds one record for each known format and no
/// other, the record of the format at position `i` of `formats` standing at `place[i]`.
pub open spec fn is_registry_document(rs: Seq<NamedRecordView>, place: Seq<usize>) -> bool {
    &&& rs.len() == formats().len()
    &&& is_permutation(place, rs.len())
    &&& forall|i: int|
        0 <= i < formats().len() ==> record_matches(
            rs[(#[trigger] place[i]) as int].record,
            formats()[i],
        )
}

/// The row of the known format at position `i`, for a document of the registry.
pub open spec fn registry_row(rs: Seq<NamedRecordView>, place: Seq<usize>, i: int) -> EntryView {
    let format = formats()[i];
    EntryView {
        source: place[i],
        identifier: rs[place[i] as int].identifier,
        prefix: prefix_of(format),
        network: network_of(format),
        description: description_of(rs[place[i] as int].record),
        reserved: account_of(format) is None,
        tokens: tokens_of(format).map_values(|token: TokenRegistry| token_position(token) as usize),
    }
}

/// The tables of the compiled registry, with the identifiers and descriptions of a
/// document of the registry.
pub open spec fn registry_tables(rs: Seq<NamedRecordView>, place: Seq<usize>) -> TablesView {
    TablesView {
        entries: Seq::new(formats().len(), |i: int| registry_row(rs, place, i)),
        prefix_to_index: prefix_index(),
        reserved_prefixes: reserved_prefixes(),
        run_starts: run_starts_table(),
        run_ends: run_ends_table(),
        tokens: token_views(),
    }
}

/// Every token stands in `token_list`, at its position.
pub proof fn lemma_token_listed(token: TokenRegistry)
    ensures
        0 <= token_position(token) < token_list().len(),
        token_list()[token_position(token)] == token,
        token_views()[token_position(token)] == token_view(token),
{
}

/// No two tokens have the same ticker.
pub proof fn lemma_token_decides(a: TokenRegistry, b: TokenRegistry)
    requires
        token_name(a) == token_name(b),
    ensures
        a == b,
{
    reveal_strlit("ACA");
    reveal_strlit("ASTR");
    reveal_strlit("BNC");
    reveal_strlit("RING");
    reveal_strlit("KTON");
    reveal_strlit("EDG");
    reveal_strlit("TEER");
    reveal_strlit("KAR");
    reveal_strlit("KLP");
    reveal_strlit("KSM");
    reveal_strlit("LAMI");
    reveal_strlit("PDEX");
    reveal_strlit("DOT");
    reveal_strlit("POLYX");
    reveal_strlit("REY");
    reveal_strlit("SYN");
    reveal_strlit("TOTEM");
    assert("ACA"@.len() == 3 && "ACA"@[0] == 'A' && "ACA"@[1] == 'C' && "ACA"@[2] == 'A');
    assert("ASTR"@.len() == 4 && "ASTR"@[0] == 'A' && "ASTR"@[1] == 'S' && "ASTR"@[2] == 'T'
        && "ASTR"@[3] == 'R');
    assert("BNC"@.len() == 3 && "BNC"@[0] == 'B' && "BNC"@[1] == 'N' && "BNC"@[2] == 'C');
    assert("RING"@.len() == 4 && "RING"@[0] == 'R' && "RING"@[1] == 'I' && "RING"@[2] == 'N'
        && "RING"@[3] == 'G');
    assert("KTON"@.len() == 4 && "KTON"@[0] == 'K' && "KTON"@[1] == 'T' && "KTON"@[2] == 'O'
        && "KTON"@[3] == 'N');
    assert("EDG"@.len() == 3 && "EDG"@[0] == 'E' && "EDG"@[1] == 'D' && "EDG"@[2] == 'G');
    assert("TEER"@.len() == 4 && "TEER"@[0] == 'T' && "TEER"@[1] == 'E' && "TEER"@[2] == 'E'
        && "TEER"@[3] == 'R');
    assert("KAR"@.len() == 3 && "KAR"@[0] == 'K' && "KAR"@[1] == 'A' && "KAR"@[2] == 'R');
    assert("KLP"@.len() == 3 && "KLP"@[0] == 'K' && "KLP"@[1] == 'L' && "KLP"@[2] == 'P');
    assert("KSM"@.len() == 3 && "KSM"@[0] == 'K' && "KSM"@[1] == 'S' && "KSM"@[2] == 'M');
    assert("LAMI"@.len() == 4 && "LAMI"@[0] == 'L' && "LAMI"@[1] == 'A' && "LAMI"@[2] == 'M'
        && "LAMI"@[3] == 'I');
    assert("PDEX"@.len() == 4 && "PDEX"@[0] == 'P' && "PDEX"@[1] == 'D' && "PDEX"@[2] == 'E'
        && "PDEX"@[3] == 'X');
    assert("DOT"@.len() == 3 && "DOT"@[0] == 'D' && "DOT"@[1] == 'O' && "DOT"@[2] == 'T');
    assert("POLYX"@.len() == 5 && "POLYX"@[0] == 'P' && "POLYX"@[1] == 'O' && "POLYX"@[2] == 'L'
        && "POLYX"@[3] == 'Y' && "POLYX"@[4] == 'X');
    assert("REY"@.len() == 3 && "REY"@[0] == 'R' && "REY"@[1] == 'E' && "REY"@[2] == 'Y');
    assert("SYN"@.len() == 3 && "SYN"@[0] == 'S' && "SYN"@[1] == 'Y' && "SYN"@[2] == 'N');
    assert("TOTEM"@.len() == 5 && "TOTEM"@[0] == 'T' && "TOTEM"@[1] == 'O' && "TOTEM"@[2] == 'T'
        && "TOTEM"@[3] == 'E' && "TOTEM"@[4] == 'M');
}

/// A token is none of those that stand before it in `token_list`.
proof fn lemma_token_new(token: TokenRegistry, count: int)
    requires
        0 <= count <= token_position(token),
    ensures
        !token_views().take(count).contains(token_view(token)),
{
    let earlier = token_views().take(count);
    if earlier.contains(token_view(token)) {
        let k = choose|k: int| 0 <= k < earlier.len() && earlier[k] == token_view(token);
        lemma_token_listed(token);
        assert(token_views()[k] == token_view(token_list()[k]));
        lemma_token_decides(token_list()[k], token);
        lemma_token_listed(token_list()[k]);
    }
}

/// For each position of `formats`, the number of tokens that the formats before it
/// mention; and at the end their number in all.
pub open spec fn token_counts() -> Seq<int> {
    seq![
        0, 0, 0, 0, 1, 2, 3, 3, 5, 6, 7, 8, 8, 9, 10, 11, 12, 13, 14, 14, 14, 15, 15, 16, 17,
    ]
}

/// The number of tokens that the first `n` known formats mention.
pub open spec fn tokens_before(n: int) -> int {
    token_counts()[n]
}

/// The tokens of the format at position `i` stand in `token_list` one after the other, from
/// the place that the tokens of the formats before it have left.
proof fn lemma_tokens_follow(i: int)
    requires
        0 <= i < formats().len(),
    ensures
        tokens_before(0) == 0,
        tokens_before(i + 1) == tokens_before(i) + tokens_of(formats()[i]).len(),
        forall|k: int|
            0 <= k < tokens_of(formats()[i]).len() ==> token_position(
                #[trigger] tokens_of(formats()[i])[k],
            ) == tokens_before(i) + k,
        tokens_before(i + 1) <= token_list().len(),
{
    let counts = token_counts();
    if i == 0 {
        assert(formats()[0] == Ss58AddressFormatRegistry::BareEd25519Account);
        assert(counts[0] == 0 && counts[1] == 0);
    } else if i == 1 {
        assert(formats()[1] == Ss58AddressFormatRegistry::BareSecp256K1Account);
        assert(counts[1] == 0 && counts[2] == 0);
    } else if i == 2 {
        assert(formats()[2] == Ss58AddressFormatRegistry::BareSr25519Account);
        assert(counts[2] == 0 && counts[3] == 0);
    } else if i == 3 {
        assert(formats()[3] == Ss58AddressFormatRegistry::AcalaAccount);
        assert(counts[3] == 0 && counts[4] == 1);
    } else if i == 4 {
        assert(formats()[4] == Ss58AddressFormatRegistry::AstarAccount);
        assert(counts[4] == 1 && counts[5] == 2);
    } else if i == 5 {
        assert(formats()[5] == Ss58AddressFormatRegistry::BifrostAccount);
        assert(counts[5] == 2 && counts[6] == 3);
    } else if i == 6 {
        assert(formats()[6] == Ss58AddressFormatRegistry::DarkAccount);
        assert(counts[6] == 3 && counts[7] == 3);
    } else if i == 7 {
        assert(formats()[7] == Ss58AddressFormatRegistry::DarwiniaAccount);
        assert(counts[7] == 3 && counts[8] == 5);
    } else if i == 8 {
        assert(formats()[8] == Ss58AddressFormatRegistry::EdgewareAccount);
        assert(counts[8] == 5 && counts[9] == 6);
    } else if i == 9 {
        assert(formats()[9] == Ss58AddressFormatRegistry::IntegriteeAccount);
        assert(counts[9] == 6 && counts[10] == 7);
    } else if i == 10 {
        assert(formats()[10] == Ss58AddressFormatRegistry::KaruraAccount);
        assert(counts[10] == 7 && counts[11] == 8);
    } else if i == 11 {
        assert(formats()[11] == Ss58AddressFormatRegistry::KatalchainAccount);
        assert(counts[11] == 8 && counts[12] == 8);
    } else if i == 12 {
        assert(formats()[12] == Ss58AddressFormatRegistry::KulupuAccount);
        assert(counts[12] == 8 && counts[13] == 9);
    } else if i == 13 {
        assert(formats()[13] == Ss58AddressFormatRegistry::KusamaAccount);
        assert(counts[13] == 9 && counts[14] == 10);
    } else if i == 14 {
        assert(formats()[14] == Ss58AddressFormatRegistry::LaminarAccount);
        assert(counts[14] == 10 && counts[15] == 11);
    } else if i == 15 {
        assert(formats()[15] == Ss58AddressFormatRegistry::PolkadexAccount);
        assert(counts[15] == 11 && counts[16] == 12);
    } else if i == 16 {
        assert(formats()[16] == Ss58AddressFormatRegistry::PolkadotAccount);
        assert(counts[16] == 12 && counts[17] == 13);
    } else if i == 17 {
        assert(formats()[17] == Ss58AddressFormatRegistry::PolymeshAccount);
        assert(counts[17] == 13 && counts[18] == 14);
    } else if i == 18 {
        assert(formats()[18] == Ss58AddressFormatRegistry::Reserved46Account);
        assert(counts[18] == 14 && counts[19] == 14);
    } else if i == 19 {
        assert(formats()[19] == Ss58AddressFormatRegistry::Reserved47Account);
        assert(counts[19] == 14 && counts[20] == 14);
    } else if i == 20 {
        assert(formats()[20] == Ss58AddressFormatRegistry::ReynoldsAccount);
        assert(counts[20] == 14 && counts[21] == 15);
    } else if i == 21 {
        assert(formats()[21] == Ss58AddressFormatRegistry::SubstrateAccount);
        assert(counts[21] == 15 && counts[22] == 15);
    } else if i == 22 {
        assert(formats()[22] == Ss58AddressFormatRegistry::SynesthesiaAccount);
        assert(counts[22] == 15 && counts[23] == 16);
    } else if i == 23 {
        assert(formats()[23] == Ss58AddressFormatRegistry::TotemAccount);
        assert(counts[23] == 16 && counts[24] == 17);
    }
}

/// Entering the first `k` tokens of the format at position `i` into the table of the tokens
/// mentioned before it appends them.
proof fn lemma_pairs_appended(r: RecordView, i: int, k: int)
    requires
        0 <= i < formats().len(),
        record_matches(r, formats()[i]),
        0 <= k <= tokens_of(formats()[i]).len(),
    ensures
        with_pairs(token_views().take(tokens_before(i)), r, k) == token_views().take(
            tokens_before(i) + k,
        ),
    decreases k,
{
    let start = tokens_before(i);
    lemma_tokens_follow(i);
    if k > 0 {
        lemma_pairs_appended(r, i, k - 1);
        let token = tokens_of(formats()[i])[k - 1];
        assert(pair_at(r, k - 1) == token_view(token));
        lemma_token_new(token, start + k - 1);
        lemma_token_listed(token);
        assert(token_views().take(start + k - 1).push(token_view(token)) =~= token_views().take(
            start + k,
        ));
    }
}

/// The token table of the first `n` rows holds the tokens that the first `n` known formats
/// mention.
proof fn lemma_token_table(rs: Seq<NamedRecordView>, place: Seq<usize>, n: int)
    requires
        is_registry_document(rs, place),
        0 <= n <= formats().len(),
    ensures
        token_table(rs, registry_tables(rs, place).entries, n) == token_views().take(
            tokens_before(n),
        ),
    decreases n,
{
    let entries = registry_tables(rs, place).entries;
    if n > 0 {
        lemma_token_table(rs, place, n - 1);
        let r = rs[entries[n - 1].source as int].record;
        assert(entries[n - 1].source == place[n - 1]);
        assert(record_matches(r, formats()[n - 1]));
        lemma_tokens_follow(n - 1);
        lemma_pairs_appended(r, n - 1, pair_count(r));
    } else {
        lemma_tokens_follow(0);
        assert(token_views().take(0) =~= Seq::<TokenView>::empty());
    }
}

/// Each row of the tables is made from its record of the document.
proof fn lemma_rows_match(rs: Seq<NamedRecordView>, place: Seq<usize>, i: int)
    requires
        is_registry_document(rs, place),
        0 <= i < formats().len(),
    ensures
        entry_matches(rs, token_views(), registry_row(rs, place, i)),
{
    let format = formats()[i];
    let row = registry_row(rs, place, i);
    let r = rs[place[i] as int].record;
    assert(record_matches(r, format));
    if account_of(format) is None {
        law_reserved_have_no_tokens(format);
    }
    assert forall|k: int| 0 <= k < row.tokens.len() implies (#[trigger] row.tokens[k])
        < token_views().len() && token_views()[row.tokens[k] as int] == pair_at(r, k) by {
        lemma_token_listed(tokens_of(format)[k]);
    }
}

/// The rows stand in the order of their network names.
proof fn lemma_rows_ordered(rs: Seq<NamedRecordView>, place: Seq<usize>, i: int, j: int)
    requires
        is_registry_document(rs, place),
        0 <= i < j < formats().len(),
    ensures
        record_before(rs, place[i] as int, place[j] as int),
{
    lemma_names_ascending();
    assert(record_matches(rs[place[i] as int].record, formats()[i]));
    assert(record_matches(rs[place[j] as int].record, formats()[j]));
    assert(names()[i] == network_of(formats()[i]));
    assert(names()[j] == network_of(formats()[j]));
}

/// The list of reserved prefixes holds the prefixes of the reserved rows, in their order.
proof fn lemma_reserved_listed(rs: Seq<NamedRecordView>, place: Seq<usize>)
    ensures
        reserved_prefixes() == reserved_before(
            registry_tables(rs, place).entries,
            formats().len() as int,
        ),
{
    let entries = registry_tables(rs, place).entries;
    assert(reserved_before(entries, 0) =~= Seq::<u16>::empty());
    assert(entries[0] == registry_row(rs, place, 0));
    assert(formats()[0] == Ss58AddressFormatRegistry::BareEd25519Account);
    assert(reserved_before(entries, 1) =~= seq![3u16]);
    assert(entries[1] == registry_row(rs, place, 1));
    assert(formats()[1] == Ss58AddressFormatRegistry::BareSecp256K1Account);
    assert(reserved_before(entries, 2) =~= seq![3u16, 43u16]);
    assert(entries[2] == registry_row(rs, place, 2));
    assert(formats()[2] == Ss58AddressFormatRegistry::BareSr25519Account);
    assert(reserved_before(entries, 3) =~= seq![3u16, 43u16, 1u16]);
    assert(entries[3] == registry_row(rs, place, 3));
    assert(formats()[3] == Ss58AddressFormatRegistry::AcalaAccount);
    assert(reserved_before(entries, 4) =~= seq![3u16, 43u16, 1u16]);
    assert(entries[4] == registry_row(rs, place, 4));
    assert(formats()[4] == Ss58AddressFormatRegistry::AstarAccount);
    assert(reserved_before(entries, 5) =~= seq![3u16, 43u16, 1u16]);
    assert(entries[5] == registry_row(rs, place, 5));
    assert(formats()[5] == Ss58AddressFormatRegistry::BifrostAccount);
    assert(reserved_before(entries, 6) =~= seq![3u16, 43u16, 1u16]);
    assert(entries[6] == registry_row(rs, place, 6));
    assert(formats()[6] == Ss58AddressFormatRegistry::DarkAccount);
    assert(reserved_before(entries, 7) =~= seq![3u16, 43u16, 1u16]);
    assert(entries[7] == registry_row(rs, place, 7));
    assert(formats()[7] == Ss58AddressFormatRegistry::DarwiniaAccount);
    assert(reserved_before(entries, 8) =~= seq![3u16, 43u16, 1u16]);
    assert(entries[8] == registry_row(rs, place, 8));
    assert(formats()[8] == Ss58AddressFormatRegistry::EdgewareAccount);
    assert(reserved_before(entries, 9) =~= seq![3u16, 43u16, 1u16]);
    assert(entries[9] == registry_row(rs, place, 9));
    assert(formats()[9] == Ss58AddressFormatRegistry::IntegriteeAccount);
    assert(reserved_before(entries, 10) =~= seq![3u16, 43u16, 1u16]);
    assert(entries[10] == registry_row(rs, place, 10));
    assert(formats()[10] == Ss58AddressFormatRegistry::KaruraAccount);
    assert(reserved_before(entries, 11) =~= seq![3u16, 43u16, 1u16]);
    assert(entries[11] == registry_row(rs, place, 11));
    assert(formats()[11] == Ss58AddressFormatRegistry::KatalchainAccount);
    assert(reserved_before(entries, 12) =~= seq![3u16, 43u16, 1u16]);
    assert(entries[12] == registry_row(rs, place, 12));
    assert(formats()[12] == Ss58AddressFormatRegistry::KulupuAccount);
    assert(reserved_before(entries, 13) =~= seq![3u16, 43u16, 1u16]);
    assert(entries[13] == registry_row(rs, place, 13));
    assert(formats()[13] == Ss58AddressFormatRegistry::KusamaAccount);
    assert(reserved_before(entries, 14) =~= seq![3u16, 43u16, 1u16]);
    assert(entries[14] == registry_row(rs, place, 14));
    assert(formats()[14] == Ss58AddressFormatRegistry::LaminarAccount);
    assert(reserved_before(entries, 15) =~= seq![3u16, 43u16, 1u16]);
    assert(entries[15] == registry_row(rs, place, 15));
    assert(formats()[15] == Ss58AddressFormatRegistry::PolkadexAccount);
    assert(reserved_before(entries, 16) =~= seq![3u16, 43u16, 1u16]);
    assert(entries[16] == registry_row(rs, place, 16));
    assert(formats()[16] == Ss58AddressFormatRegistry::PolkadotAccount);
    assert(reserved_before(entries, 17) =~= seq![3u16, 43u16, 1u16]);
    assert(entries[17] == registry_row(rs, place, 17));
    assert(formats()[17] == Ss58AddressFormatRegistry::PolymeshAccount);
    assert(reserved_before(entries, 18) =~= seq![3u16, 43u16, 1u16]);
    assert(entries[18] == registry_row(rs, place, 18));
    assert(formats()[18] == Ss58AddressFormatRegistry::Reserved46Account);
    assert(reserved_before(entries, 19) =~= seq![3u16, 43u16, 1u16, 46u16]);
    assert(entries[19] == registry_row(rs, place, 19));
    assert(formats()[19] == Ss58AddressFormatRegistry::Reserved47Account);
    assert(reserved_before(entries, 20) =~= seq![3u16, 43u16, 1u16, 46u16, 47u16]);
    assert(entries[20] == registry_row(rs, place, 20));
    assert(formats()[20] == Ss58AddressFormatRegistry::ReynoldsAccount);
    assert(reserved_before(entries, 21) =~= seq![3u16, 43u16, 1u16, 46u16, 47u16]);
    assert(entries[21] == registry_row(rs, place, 21));
    assert(formats()[21] == Ss58AddressFormatRegistry::SubstrateAccount);
    assert(reserved_before(entries, 22) =~= seq![3u16, 43u16, 1u16, 46u16, 47u16]);
    assert(entries[22] == registry_row(rs, place, 22));
    assert(formats()[22] == Ss58AddressFormatRegistry::SynesthesiaAccount);
    assert(reserved_before(entries, 23) =~= seq![3u16, 43u16, 1u16, 46u16, 47u16]);
    assert(entries[23] == registry_row(rs, place, 23));
    assert(formats()[23] == Ss58AddressFormatRegistry::TotemAccount);
    assert(reserved_before(entries, 24) =~= seq![3u16, 43u16, 1u16, 46u16, 47u16]);
    assert(reserved_prefixes() =~= reserved_before(entries, formats().len() as int));
}

/// The rows of the tables are the records of the document, each once, in the order of
/// their network names.
proof fn lemma_rows_compiled(rs: Seq<NamedRecordView>, place: Seq<usize>)
    requires
        is_registry_document(rs, place),
    ensures
        rows_compiled(rs, registry_tables(rs, place)),
{
    let t = registry_tables(rs, place);
    assert(sources(t.entries) =~= place);
    assert forall|i: int| 0 <= i < t.entries.len() implies entry_matches(
        rs,
        t.tokens,
        #[trigger] t.entries[i],
    ) by {
        lemma_rows_match(rs, place, i);
    }
    assert forall|i: int, j: int| 0 <= i < j < t.entries.len() implies record_before(
        rs,
        (#[trigger] t.entries[i]).source as int,
        (#[trigger] t.entries[j]).source as int,
    ) by {
        lemma_rows_ordered(rs, place, i, j);
    }
}

/// The prefix index lists every row once, under its prefix, in the order of the prefixes.
proof fn lemma_index_compiled(rs: Seq<NamedRecordView>, place: Seq<usize>)
    ensures
        index_compiled(registry_tables(rs, place)),
{
    let t = registry_tables(rs, place);
    law_prefix_index_sorted();
    assert forall|k: int| 0 <= k < t.prefix_to_index.len() implies (
    #[trigger] t.prefix_to_index[k]).0 == t.entries[t.prefix_to_index[k].1 as int].prefix by {
        assert(prefix_of(formats()[prefix_index()[k].1 as int]) == prefix_index()[k].0);
    }
    assert forall|a: int, b: int| 0 <= a < b < t.prefix_to_index.len() implies index_before(
        t.entries,
        (#[trigger] t.prefix_to_index[a]).1 as int,
        (#[trigger] t.prefix_to_index[b]).1 as int,
    ) by {
        assert(t.prefix_to_index[a].0 < t.prefix_to_index[b].0);
    }
}

/// The token table holds every token that a record mentions, in the order of its first
/// mention along the rows.
proof fn lemma_tokens_compiled(rs: Seq<NamedRecordView>, place: Seq<usize>)
    requires
        is_registry_document(rs, place),
    ensures
        token_views() == token_table(
            rs,
            registry_tables(rs, place).entries,
            formats().len() as int,
        ),
{
    let n = formats().len() as int;
    lemma_token_table(rs, place, n);
    lemma_tokens_follow(n - 1);
    assert(token_views().take(tokens_before(n)) =~= token_views());
}

/// The tables of the compiled registry are the tables that the table builder makes of a
/// document of the registry, in whatever order the document holds its records.
pub proof fn law_registry_is_compiled(rs: Seq<NamedRecordView>, place: Seq<usize>)
    requires
        is_registry_document(rs, place),
    ensures
        is_compilation(rs, registry_tables(rs, place)),
{
    lemma_rows_compiled(rs, place);
    lemma_index_compiled(rs, place);
    lemma_tokens_compiled(rs, place);
    lemma_reserved_listed(rs, place);
    law_run_tables();
}

/// Whatever tables the table builder makes of a document of the registry, they are the
/// tables of the compiled registry.
pub proof fn law_compiled_tables_are_the_registry(
    rs: Seq<NamedRecordView>,
    place: Seq<usize>,
    t: TablesView,
)
    requires
        is_registry_document(rs, place),
        is_compilation(rs, t),
    ensures
        t == registry_tables(rs, place),
{
    law_registry_is_compiled(rs, place);
    law_tables_decided(rs, t, registry_tables(rs, place));
}

} // verus!
