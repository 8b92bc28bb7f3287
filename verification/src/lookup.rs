//! Lookups in the compiled registry, and the facts about its tables that they rest on.

use crate::numeral::is_digit;
use crate::registry::{
    all_formats, all_names, formats, from_known_address_format, names, network_of, prefix_index,
    prefix_of, prefix_to_index, reserved_prefixes, run_ends_table, run_starts_table,
    Ss58AddressFormatRegistry,
};
use crate::runs::{ends_before, in_some_run, run_ends, run_holds, run_starts, starts_before};
use crate::search::{
    ascending_by_prefix, find_name, find_prefix, lemma_neighbours_ascend, names_ascending,
};
use crate::tables::first_components;
use crate::text::{lemma_text_lt_asymmetric, less_at};
use vstd::pervasive::unreached;
use vstd::prelude::*;

verus! {

/// The known format with the prefix `prefix`, if there is one.
pub open spec fn known(prefix: u16) -> Option<Ss58AddressFormatRegistry> {
    if exists|format: Ss58AddressFormatRegistry| prefix_of(format) == prefix {
        Some(choose|format: Ss58AddressFormatRegistry| prefix_of(format) == prefix)
    } else {
        None
    }
}

/// The known format of the network called `name`, if there is one.
pub open spec fn named(name: Seq<char>) -> Option<Ss58AddressFormatRegistry> {
    if exists|format: Ss58AddressFormatRegistry| network_of(format) == name {
        Some(choose|format: Ss58AddressFormatRegistry| network_of(format) == name)
    } else {
        None
    }
}

/// The prefix is reserved: it lies above 16384, or it is the prefix of a reserved network.
pub open spec fn is_reserved_prefix(prefix: u16) -> bool {
    prefix > 16384 || reserved_prefixes().contains(prefix)
}

/// The known prefixes, in ascending order.
pub open spec fn known_prefixes() -> Seq<u16> {
    seq![
        0u16, 1u16, 2u16, 3u16, 4u16, 5u16, 6u16, 7u16, 8u16, 9u16, 10u16, 11u16, 12u16, 13u16,
        14u16, 15u16, 16u16, 17u16, 18u16, 42u16, 43u16, 46u16, 47u16, 89u16,
    ]
}

/// The position of a known format in `formats`.
pub open spec fn position_of(format: Ss58AddressFormatRegistry) -> int {
    match format {
        Ss58AddressFormatRegistry::BareEd25519Account => 0,
        Ss58AddressFormatRegistry::BareSecp256K1Account => 1,
        Ss58AddressFormatRegistry::BareSr25519Account => 2,
        Ss58AddressFormatRegistry::AcalaAccount => 3,
        Ss58AddressFormatRegistry::AstarAccount => 4,
        Ss58AddressFormatRegistry::BifrostAccount => 5,
        Ss58AddressFormatRegistry::DarkAccount => 6,
        Ss58AddressFormatRegistry::DarwiniaAccount => 7,
        Ss58AddressFormatRegistry::EdgewareAccount => 8,
        Ss58AddressFormatRegistry::IntegriteeAccount => 9,
        Ss58AddressFormatRegistry::KaruraAccount => 10,
        Ss58AddressFormatRegistry::KatalchainAccount => 11,
        Ss58AddressFormatRegistry::KulupuAccount => 12,
        Ss58AddressFormatRegistry::KusamaAccount => 13,
        Ss58AddressFormatRegistry::LaminarAccount => 14,
        Ss58AddressFormatRegistry::PolkadexAccount => 15,
        Ss58AddressFormatRegistry::PolkadotAccount => 16,
        Ss58AddressFormatRegistry::PolymeshAccount => 17,
        Ss58AddressFormatRegistry::Reserved46Account => 18,
        Ss58AddressFormatRegistry::Reserved47Account => 19,
        Ss58AddressFormatRegistry::ReynoldsAccount => 20,
        Ss58AddressFormatRegistry::SubstrateAccount => 21,
        Ss58AddressFormatRegistry::SynesthesiaAccount => 22,
        Ss58AddressFormatRegistry::TotemAccount => 23,
    }
}

/// The position in the prefix index of the entry of a known format.
pub open spec fn slot_of(format: Ss58AddressFormatRegistry) -> int {
    match format {
        Ss58AddressFormatRegistry::BareEd25519Account => 3,
        Ss58AddressFormatRegistry::BareSecp256K1Account => 20,
        Ss58AddressFormatRegistry::BareSr25519Account => 1,
        Ss58AddressFormatRegistry::AcalaAccount => 10,
        Ss58AddressFormatRegistry::AstarAccount => 5,
        Ss58AddressFormatRegistry::BifrostAccount => 6,
        Ss58AddressFormatRegistry::DarkAccount => 17,
        Ss58AddressFormatRegistry::DarwiniaAccount => 18,
        Ss58AddressFormatRegistry::EdgewareAccount => 7,
        Ss58AddressFormatRegistry::IntegriteeAccount => 13,
        Ss58AddressFormatRegistry::KaruraAccount => 8,
        Ss58AddressFormatRegistry::KatalchainAccount => 4,
        Ss58AddressFormatRegistry::KulupuAccount => 16,
        Ss58AddressFormatRegistry::KusamaAccount => 2,
        Ss58AddressFormatRegistry::LaminarAccount => 11,
        Ss58AddressFormatRegistry::PolkadexAccount => 23,
        Ss58AddressFormatRegistry::PolkadotAccount => 0,
        Ss58AddressFormatRegistry::PolymeshAccount => 12,
        Ss58AddressFormatRegistry::Reserved46Account => 21,
        Ss58AddressFormatRegistry::Reserved47Account => 22,
        Ss58AddressFormatRegistry::ReynoldsAccount => 9,
        Ss58AddressFormatRegistry::SubstrateAccount => 19,
        Ss58AddressFormatRegistry::SynesthesiaAccount => 15,
        Ss58AddressFormatRegistry::TotemAccount => 14,
    }
}

/// Every known format stands in `formats`, at its position, and has its entry in the prefix
/// index, at its slot.
pub proof fn lemma_listed(format: Ss58AddressFormatRegistry)
    ensures
        0 <= position_of(format) < formats().len(),
        formats()[position_of(format)] == format,
        names()[position_of(format)] == network_of(format),
        0 <= slot_of(format) < prefix_index().len(),
        prefix_index()[slot_of(format)] == (prefix_of(format), position_of(format) as usize),
{
}

/// No two known formats have the same prefix.
pub proof fn lemma_prefix_decides(a: Ss58AddressFormatRegistry, b: Ss58AddressFormatRegistry)
    requires
        prefix_of(a) == prefix_of(b),
    ensures
        a == b,
{
}

/// The prefix index is sorted by prefix, and each of its entries holds the prefix of the
/// format at the position that it names.
pub proof fn lemma_prefix_index_sorted()
    ensures
        prefix_index().len() == formats().len(),
        ascending_by_prefix(prefix_index()),
        forall|k: int|
            0 <= k < prefix_index().len() ==> (#[trigger] prefix_index()[k]).1 < formats().len()
                && prefix_of(formats()[prefix_index()[k].1 as int]) == prefix_index()[k].0,
{
    let index = prefix_index();
    assert(index[0] == (0u16, 16usize));
    assert(index[1] == (1u16, 2usize));
    assert(index[2] == (2u16, 13usize));
    assert(index[3] == (3u16, 0usize));
    assert(index[4] == (4u16, 11usize));
    assert(index[5] == (5u16, 4usize));
    assert(index[6] == (6u16, 5usize));
    assert(index[7] == (7u16, 8usize));
    assert(index[8] == (8u16, 10usize));
    assert(index[9] == (9u16, 20usize));
    assert(index[10] == (10u16, 3usize));
    assert(index[11] == (11u16, 14usize));
    assert(index[12] == (12u16, 17usize));
    assert(index[13] == (13u16, 9usize));
    assert(index[14] == (14u16, 23usize));
    assert(index[15] == (15u16, 22usize));
    assert(index[16] == (16u16, 12usize));
    assert(index[17] == (17u16, 6usize));
    assert(index[18] == (18u16, 7usize));
    assert(index[19] == (42u16, 21usize));
    assert(index[20] == (43u16, 1usize));
    assert(index[21] == (46u16, 18usize));
    assert(index[22] == (47u16, 19usize));
    assert(index[23] == (89u16, 15usize));
}

/// The name table is sorted.
pub proof fn lemma_names_ascending()
    ensures
        names().len() == formats().len(),
        names_ascending(names()),
{
    let table = names();
    reveal_strlit("BareEd25519");
    reveal_strlit("BareSecp256k1");
    reveal_strlit("BareSr25519");
    reveal_strlit("acala");
    reveal_strlit("astar");
    reveal_strlit("bifrost");
    reveal_strlit("dark");
    reveal_strlit("darwinia");
    reveal_strlit("edgeware");
    reveal_strlit("integritee");
    reveal_strlit("karura");
    reveal_strlit("katalchain");
    reveal_strlit("kulupu");
    reveal_strlit("kusama");
    reveal_strlit("laminar");
    reveal_strlit("polkadex");
    reveal_strlit("polkadot");
    reveal_strlit("polymesh");
    reveal_strlit("reserved46");
    reveal_strlit("reserved47");
    reveal_strlit("reynolds");
    reveal_strlit("substrate");
    reveal_strlit("synesthesia");
    reveal_strlit("totem");
    assert(less_at(table[0], table[1], 4));
    assert(less_at(table[1], table[2], 5));
    assert(less_at(table[2], table[3], 0));
    assert(less_at(table[3], table[4], 1));
    assert(less_at(table[4], table[5], 0));
    assert(less_at(table[5], table[6], 0));
    assert(less_at(table[6], table[7], 3));
    assert(less_at(table[7], table[8], 0));
    assert(less_at(table[8], table[9], 0));
    assert(less_at(table[9], table[10], 0));
    assert(less_at(table[10], table[11], 2));
    assert(less_at(table[11], table[12], 1));
    assert(less_at(table[12], table[13], 2));
    assert(less_at(table[13], table[14], 0));
    assert(less_at(table[14], table[15], 0));
    assert(less_at(table[15], table[16], 6));
    assert(less_at(table[16], table[17], 3));
    assert(less_at(table[17], table[18], 0));
    assert(less_at(table[18], table[19], 9));
    assert(less_at(table[19], table[20], 2));
    assert(less_at(table[20], table[21], 0));
    assert(less_at(table[21], table[22], 1));
    assert(less_at(table[22], table[23], 0));
    lemma_neighbours_ascend(table);
}

/// No two known formats have the same network name.
pub proof fn lemma_name_decides(a: Ss58AddressFormatRegistry, b: Ss58AddressFormatRegistry)
    requires
        network_of(a) == network_of(b),
    ensures
        a == b,
{
    lemma_names_ascending();
    lemma_listed(a);
    lemma_listed(b);
    let i = position_of(a);
    let j = position_of(b);
    if i < j {
        lemma_text_lt_asymmetric(names()[i], names()[j]);
    } else if j < i {
        lemma_text_lt_asymmetric(names()[j], names()[i]);
    }
}

/// No network name starts with a decimal digit.
pub proof fn lemma_names_start_with_letters(format: Ss58AddressFormatRegistry)
    ensures
        network_of(format).len() > 0,
        !is_digit(network_of(format)[0]),
{
    reveal_strlit("BareEd25519");
    reveal_strlit("BareSecp256k1");
    reveal_strlit("BareSr25519");
    reveal_strlit("acala");
    reveal_strlit("astar");
    reveal_strlit("bifrost");
    reveal_strlit("dark");
    reveal_strlit("darwinia");
    reveal_strlit("edgeware");
    reveal_strlit("integritee");
    reveal_strlit("karura");
    reveal_strlit("katalchain");
    reveal_strlit("kulupu");
    reveal_strlit("kusama");
    reveal_strlit("laminar");
    reveal_strlit("polkadex");
    reveal_strlit("polkadot");
    reveal_strlit("polymesh");
    reveal_strlit("reserved46");
    reveal_strlit("reserved47");
    reveal_strlit("reynolds");
    reveal_strlit("substrate");
    reveal_strlit("synesthesia");
    reveal_strlit("totem");
}

/// A prefix lies in one of the runs exactly when it is the prefix of a known format, and
/// then in one run only.
pub proof fn lemma_runs_hold_known(prefix: u16)
    ensures
        in_some_run(run_starts_table(), run_ends_table(), prefix) <==> known(prefix) is Some,
        forall|j: int, k: int|
            run_holds(run_starts_table(), run_ends_table(), j, prefix) && run_holds(
                run_starts_table(),
                run_ends_table(),
                k,
                prefix,
            ) ==> j == k,
{
    let starts = run_starts_table();
    let ends = run_ends_table();
    if known(prefix) is Some {
        let format = choose|format: Ss58AddressFormatRegistry| prefix_of(format) == prefix;
        if 0 <= prefix <= 18 {
            assert(run_holds(starts, ends, 0, prefix));
        } else if 42 <= prefix <= 43 {
            assert(run_holds(starts, ends, 1, prefix));
        } else if 46 <= prefix <= 47 {
            assert(run_holds(starts, ends, 2, prefix));
        } else if prefix == 89 {
            assert(run_holds(starts, ends, 3, prefix));
        }
    }
    if in_some_run(starts, ends, prefix) {
        let k = choose|k: int| run_holds(starts, ends, k, prefix);
        if prefix == 0 {
            assert(prefix_of(Ss58AddressFormatRegistry::PolkadotAccount) == prefix);
        } else if prefix == 1 {
            assert(prefix_of(Ss58AddressFormatRegistry::BareSr25519Account) == prefix);
        } else if prefix == 2 {
            assert(prefix_of(Ss58AddressFormatRegistry::KusamaAccount) == prefix);
        } else if prefix == 3 {
            assert(prefix_of(Ss58AddressFormatRegistry::BareEd25519Account) == prefix);
        } else if prefix == 4 {
            assert(prefix_of(Ss58AddressFormatRegistry::KatalchainAccount) == prefix);
        } else if prefix == 5 {
            assert(prefix_of(Ss58AddressFormatRegistry::AstarAccount) == prefix);
        } else if prefix == 6 {
            assert(prefix_of(Ss58AddressFormatRegistry::BifrostAccount) == prefix);
        } else if prefix == 7 {
            assert(prefix_of(Ss58AddressFormatRegistry::EdgewareAccount) == prefix);
        } else if prefix == 8 {
            assert(prefix_of(Ss58AddressFormatRegistry::KaruraAccount) == prefix);
        } else if prefix == 9 {
            assert(prefix_of(Ss58AddressFormatRegistry::ReynoldsAccount) == prefix);
        } else if prefix == 10 {
            assert(prefix_of(Ss58AddressFormatRegistry::AcalaAccount) == prefix);
        } else if prefix == 11 {
            assert(prefix_of(Ss58AddressFormatRegistry::LaminarAccount) == prefix);
        } else if prefix == 12 {
            assert(prefix_of(Ss58AddressFormatRegistry::PolymeshAccount) == prefix);
        } else if prefix == 13 {
            assert(prefix_of(Ss58AddressFormatRegistry::IntegriteeAccount) == prefix);
        } else if prefix == 14 {
            assert(prefix_of(Ss58AddressFormatRegistry::TotemAccount) == prefix);
        } else if prefix == 15 {
            assert(prefix_of(Ss58AddressFormatRegistry::SynesthesiaAccount) == prefix);
        } else if prefix == 16 {
            assert(prefix_of(Ss58AddressFormatRegistry::KulupuAccount) == prefix);
        } else if prefix == 17 {
            assert(prefix_of(Ss58AddressFormatRegistry::DarkAccount) == prefix);
        } else if prefix == 18 {
            assert(prefix_of(Ss58AddressFormatRegistry::DarwiniaAccount) == prefix);
        } else if prefix == 42 {
            assert(prefix_of(Ss58AddressFormatRegistry::SubstrateAccount) == prefix);
        } else if prefix == 43 {
            assert(prefix_of(Ss58AddressFormatRegistry::BareSecp256K1Account) == prefix);
        } else if prefix == 46 {
            assert(prefix_of(Ss58AddressFormatRegistry::Reserved46Account) == prefix);
        } else if prefix == 47 {
            assert(prefix_of(Ss58AddressFormatRegistry::Reserved47Account) == prefix);
        } else if prefix == 89 {
            assert(prefix_of(Ss58AddressFormatRegistry::PolkadexAccount) == prefix);
        }
    }
}


/// The first components of the prefix index are the known prefixes, in ascending order.
pub proof fn lemma_index_prefixes()
    ensures
        first_components(prefix_index()).len() == prefix_index().len(),
        first_components(prefix_index()) == known_prefixes(),
{
    let index = prefix_index();
    assert(index[0].0 == 0);
    assert(index[1].0 == 1);
    assert(index[2].0 == 2);
    assert(index[3].0 == 3);
    assert(index[4].0 == 4);
    assert(index[5].0 == 5);
    assert(index[6].0 == 6);
    assert(index[7].0 == 7);
    assert(index[8].0 == 8);
    assert(index[9].0 == 9);
    assert(index[10].0 == 10);
    assert(index[11].0 == 11);
    assert(index[12].0 == 12);
    assert(index[13].0 == 13);
    assert(index[14].0 == 14);
    assert(index[15].0 == 15);
    assert(index[16].0 == 16);
    assert(index[17].0 == 17);
    assert(index[18].0 == 18);
    assert(index[19].0 == 42);
    assert(index[20].0 == 43);
    assert(index[21].0 == 46);
    assert(index[22].0 == 47);
    assert(index[23].0 == 89);
    assert(first_components(index) =~= known_prefixes());
}

/// The run tables hold the first prefix of each run of known prefixes.
pub proof fn lemma_run_starts()
    ensures
        run_starts_table() == run_starts(known_prefixes()),
{
    let data = known_prefixes();
    assert(starts_before(data, 0) =~= Seq::<u16>::empty());
    assert(starts_before(data, 1) =~= seq![0u16]);
    assert(starts_before(data, 2) =~= seq![0u16]);
    assert(starts_before(data, 3) =~= seq![0u16]);
    assert(starts_before(data, 4) =~= seq![0u16]);
    assert(starts_before(data, 5) =~= seq![0u16]);
    assert(starts_before(data, 6) =~= seq![0u16]);
    assert(starts_before(data, 7) =~= seq![0u16]);
    assert(starts_before(data, 8) =~= seq![0u16]);
    assert(starts_before(data, 9) =~= seq![0u16]);
    assert(starts_before(data, 10) =~= seq![0u16]);
    assert(starts_before(data, 11) =~= seq![0u16]);
    assert(starts_before(data, 12) =~= seq![0u16]);
    assert(starts_before(data, 13) =~= seq![0u16]);
    assert(starts_before(data, 14) =~= seq![0u16]);
    assert(starts_before(data, 15) =~= seq![0u16]);
    assert(starts_before(data, 16) =~= seq![0u16]);
    assert(starts_before(data, 17) =~= seq![0u16]);
    assert(starts_before(data, 18) =~= seq![0u16]);
    assert(starts_before(data, 19) =~= seq![0u16]);
    assert(starts_before(data, 20) =~= seq![0u16, 42u16]);
    assert(starts_before(data, 21) =~= seq![0u16, 42u16]);
    assert(starts_before(data, 22) =~= seq![0u16, 42u16, 46u16]);
    assert(starts_before(data, 23) =~= seq![0u16, 42u16, 46u16]);
    assert(starts_before(data, 24) =~= seq![0u16, 42u16, 46u16, 89u16]);
    assert(run_starts_table() =~= run_starts(data));
}

/// The run tables hold the last prefix of each run of known prefixes.
pub proof fn lemma_run_ends()
    ensures
        run_ends_table() == run_ends(known_prefixes()),
{
    let data = known_prefixes();
    assert(ends_before(data, 0) =~= Seq::<u16>::empty());
    assert(ends_before(data, 1) =~= Seq::<u16>::empty());
    assert(ends_before(data, 2) =~= Seq::<u16>::empty());
    assert(ends_before(data, 3) =~= Seq::<u16>::empty());
    assert(ends_before(data, 4) =~= Seq::<u16>::empty());
    assert(ends_before(data, 5) =~= Seq::<u16>::empty());
    assert(ends_before(data, 6) =~= Seq::<u16>::empty());
    assert(ends_before(data, 7) =~= Seq::<u16>::empty());
    assert(ends_before(data, 8) =~= Seq::<u16>::empty());
    assert(ends_before(data, 9) =~= Seq::<u16>::empty());
    assert(ends_before(data, 10) =~= Seq::<u16>::empty());
    assert(ends_before(data, 11) =~= Seq::<u16>::empty());
    assert(ends_before(data, 12) =~= Seq::<u16>::empty());
    assert(ends_before(data, 13) =~= Seq::<u16>::empty());
    assert(ends_before(data, 14) =~= Seq::<u16>::empty());
    assert(ends_before(data, 15) =~= Seq::<u16>::empty());
    assert(ends_before(data, 16) =~= Seq::<u16>::empty());
    assert(ends_before(data, 17) =~= Seq::<u16>::empty());
    assert(ends_before(data, 18) =~= Seq::<u16>::empty());
    assert(ends_before(data, 19) =~= seq![18u16]);
    assert(ends_before(data, 20) =~= seq![18u16]);
    assert(ends_before(data, 21) =~= seq![18u16, 43u16]);
    assert(ends_before(data, 22) =~= seq![18u16, 43u16]);
    assert(ends_before(data, 23) =~= seq![18u16, 43u16, 47u16]);
    assert(ends_before(data, 24) =~= seq![18u16, 43u16, 47u16, 89u16]);
    assert(run_ends_table() =~= run_ends(data));
}

/// The known format with a prefix, found by bisection in the prefix index.
pub fn lookup_prefix(prefix: u16) -> (r: Option<Ss58AddressFormatRegistry>)
    ensures
        r == known(prefix),
{
    let index = prefix_to_index();
    let listed = all_formats();
    proof {
        lemma_prefix_index_sorted();
    }
    match find_prefix(index, prefix) {
        Some(k) => {
            let position = index[k].1;
            let format = listed[position];
            proof {
                let chosen = choose|format: Ss58AddressFormatRegistry| prefix_of(format) == prefix;
                lemma_prefix_decides(chosen, format);
            }
            Some(format)
        },
        None => {
            proof {
                assert forall|format: Ss58AddressFormatRegistry| prefix_of(format) != prefix by {
                    lemma_listed(format);
                    assert(prefix_index()[slot_of(format)].0 != prefix);
                }
            }
            None
        },
    }
}

/// The known format of a network, found by bisection in the name table.
pub fn lookup_name(name: &str) -> (r: Option<Ss58AddressFormatRegistry>)
    ensures
        r == named(name@),
{
    let table = all_names();
    let listed = all_formats();
    proof {
        lemma_names_ascending();
    }
    match find_name(table, name) {
        Some(k) => {
            let format = listed[k];
            proof {
                assert(names()[k as int] == name@);
                assert(network_of(format) == name@);
                let chosen = choose|format: Ss58AddressFormatRegistry| network_of(format) == name@;
                lemma_name_decides(chosen, format);
            }
            Some(format)
        },
        None => {
            proof {
                assert forall|format: Ss58AddressFormatRegistry| network_of(format) != name@ by {
                    lemma_listed(format);
                    assert(names()[position_of(format)] != name@);
                }
            }
            None
        },
    }
}

/// The name of a known network, found through the prefix index: the entry of the format's
/// prefix names the position of its name.
pub fn network_name(format: Ss58AddressFormatRegistry) -> (r: &'static str)
    ensures
        r@ == network_of(format),
{
    let index = prefix_to_index();
    let table = all_names();
    proof {
        lemma_prefix_index_sorted();
        lemma_names_ascending();
        lemma_listed(format);
    }
    match find_prefix(index, from_known_address_format(format)) {
        Some(k) => {
            let position = index[k].1;
            proof {
                lemma_prefix_decides(formats()[position as int], format);
                assert(names()[position as int] == network_of(format));
            }
            table[position]
        },
        None => {
            proof {
                assert(prefix_index()[slot_of(format)].0 == prefix_of(format));
            }
            unreached()
        },
    }
}

/// Whether a prefix is reserved.
pub fn reserved(prefix: u16) -> (r: bool)
    ensures
        r == is_reserved_prefix(prefix),
{
    let listed = matches!(prefix, 3 | 43 | 1 | 46 | 47);
    proof {
        let table = reserved_prefixes();
        if listed {
            if prefix == 3 {
                assert(table[0] == prefix);
            } else if prefix == 43 {
                assert(table[1] == prefix);
            } else if prefix == 1 {
                assert(table[2] == prefix);
            } else if prefix == 46 {
                assert(table[3] == prefix);
            } else if prefix == 47 {
                assert(table[4] == prefix);
            }
        }
    }
    prefix > 16384 || listed
}

/// Whether a prefix is that of no known format. One match against the runs of known
/// prefixes decides.
pub fn unknown(prefix: u16) -> (r: bool)
    ensures
        r == known(prefix) is None,
        r == !in_some_run(run_starts_table(), run_ends_table(), prefix),
{
    proof {
        lemma_runs_hold_known(prefix);
        let starts = run_starts_table();
        let ends = run_ends_table();
        assert(run_holds(starts, ends, 0, prefix) <==> 0 <= prefix <= 18);
        assert(run_holds(starts, ends, 1, prefix) <==> 42 <= prefix <= 43);
        assert(run_holds(starts, ends, 2, prefix) <==> 46 <= prefix <= 47);
        assert(run_holds(starts, ends, 3, prefix) <==> 89 <= prefix <= 89);
        if in_some_run(starts, ends, prefix) {
            let k = choose|k: int| run_holds(starts, ends, k, prefix);
        }
    }
    !matches!(prefix, 0..=18 | 42..=43 | 46..=47 | 89..=89)
}

} // verus!
