//! What holds of the compiled registry and of the conversions between prefixes, names and
//! known formats.

use crate::address_format::{display_of, prefix_named, Ss58AddressFormat};
use crate::error::ParseError;
use crate::lookup::{
    is_reserved_prefix, known, lemma_index_prefixes, lemma_listed, lemma_name_decides,
    lemma_names_ascending, lemma_prefix_decides, lemma_prefix_index_sorted, lemma_run_ends,
    lemma_names_start_with_letters, lemma_run_starts, lemma_runs_hold_known, named,
    position_of, slot_of,
};
use crate::numeral::{decimal_digits, lemma_u16_read_back};
use crate::registry::{
    account_of, formats, names, network_of, prefix_index, prefix_of, reserved_prefixes,
    run_ends_table, run_starts_table, tokens_of, Ss58AddressFormatRegistry, REGISTRY_SIZE,
};
use crate::runs::{in_some_run, run_ends, run_holds, run_starts, strictly_ascending};
use crate::search::{ascending_by_prefix, names_ascending};
use crate::sort::is_permutation;
use crate::tables::{first_components, second_components};
use vstd::prelude::*;
use vstd::std_specs::convert::{FromSpec, TryFromSpec};

verus! {

/// The table of formats and the table of names are aligned: the name at a position is the
/// name of the format at that position, and of no other format.
pub proof fn law_tables_aligned(i: int)
    requires
        0 <= i < formats().len(),
    ensures
        names().len() == formats().len(),
        names()[i] == network_of(formats()[i]),
        named(names()[i]) == Some(formats()[i]),
{
    let format = formats()[i];
    let chosen = choose|format: Ss58AddressFormatRegistry| network_of(format) == names()[i];
    lemma_name_decides(chosen, format);
}

/// The tables have one entry for each known network.
pub proof fn law_registry_size()
    ensures
        formats().len() == REGISTRY_SIZE,
        names().len() == REGISTRY_SIZE,
        prefix_index().len() == REGISTRY_SIZE,
{
}

/// The table of names ascends strictly.
pub proof fn law_names_sorted()
    ensures
        names_ascending(names()),
{
    lemma_names_ascending();
}

/// The prefix index ascends strictly by its first components, each of which is the prefix
/// of the format at the position that the second component gives; the second components
/// are the positions of the table of formats, each once.
pub proof fn law_prefix_index_sorted()
    ensures
        ascending_by_prefix(prefix_index()),
        strictly_ascending(first_components(prefix_index())),
        is_permutation(second_components(prefix_index()), formats().len()),
        forall|k: int|
            0 <= k < prefix_index().len() ==> prefix_of(
                formats()[(#[trigger] prefix_index()[k]).1 as int],
            ) == prefix_index()[k].0,
{
    lemma_prefix_index_sorted();
    let index = prefix_index();
    let seconds = second_components(index);
    assert forall|i: int, j: int| 0 <= i < j < seconds.len() implies seconds[i] != seconds[j] by {
        assert(index[i].0 < index[j].0);
    }
}

/// The run tables are the runs of the prefix index: the first and the last prefix of each
/// stretch of consecutive prefixes.
pub proof fn law_run_tables()
    ensures
        run_starts_table() == run_starts(first_components(prefix_index())),
        run_ends_table() == run_ends(first_components(prefix_index())),
{
    lemma_index_prefixes();
    lemma_run_starts();
    lemma_run_ends();
}

/// Every prefix of the prefix index lies in exactly one run, and the runs hold no other
/// prefix.
pub proof fn law_runs_cover(prefix: u16)
    ensures
        in_some_run(run_starts_table(), run_ends_table(), prefix) <==> first_components(
            prefix_index(),
        ).contains(prefix),
        forall|j: int, k: int|
            run_holds(run_starts_table(), run_ends_table(), j, prefix) && run_holds(
                run_starts_table(),
                run_ends_table(),
                k,
                prefix,
            ) ==> j == k,
{
    lemma_runs_hold_known(prefix);
    lemma_prefix_index_sorted();
    let firsts = first_components(prefix_index());
    if known(prefix) is Some {
        let format = known(prefix).unwrap();
        lemma_listed(format);
        assert(firsts[slot_of(format)] == prefix);
    }
    if firsts.contains(prefix) {
        let k = choose|k: int| 0 <= k < firsts.len() && firsts[k] == prefix;
        assert(prefix_of(formats()[prefix_index()[k].1 as int]) == prefix);
    }
}

/// The prefix of a known network is reserved exactly when the network has no standard
/// account or the prefix lies above 16384.
pub proof fn law_reserved(format: Ss58AddressFormatRegistry)
    ensures
        is_reserved_prefix(prefix_of(format)) <==> (account_of(format) is None || prefix_of(format)
            > 16384),
{
    let table = reserved_prefixes();
    if account_of(format) is None {
        assert(exists|k: int| 0 <= k < table.len() && table[k] == prefix_of(format)) by {
            assert(table[0] == 3 && table[1] == 43 && table[2] == 1 && table[3] == 46 && table[4]
                == 47);
        }
    }
}

/// A reserved network has no tokens.
pub proof fn law_reserved_have_no_tokens(format: Ss58AddressFormatRegistry)
    requires
        account_of(format) is None,
    ensures
        tokens_of(format).len() == 0,
{
}

/// Up to 16384 a prefix is reserved only where the registry lists it as reserved; above,
/// every prefix is.
pub proof fn law_reserved_boundary(prefix: u16)
    ensures
        prefix <= 16384 ==> is_reserved_prefix(prefix) == reserved_prefixes().contains(prefix),
        prefix > 16384 ==> is_reserved_prefix(prefix),
{
}

/// From a known format to its address format and back gives the format.
pub proof fn law_known_round_trip(format: Ss58AddressFormatRegistry)
    ensures
        known(prefix_of(format)) == Some(format),
        Ss58AddressFormatRegistry::try_from_spec(Ss58AddressFormat::from_spec(format)) == Ok::<
            Ss58AddressFormatRegistry,
            ParseError,
        >(format),
{
    let chosen = choose|other: Ss58AddressFormatRegistry| prefix_of(other) == prefix_of(format);
    lemma_prefix_decides(chosen, format);
    Ss58AddressFormat::lemma_of(prefix_of(format), Ss58AddressFormat::of(prefix_of(format)));
}

/// A name of the name table is read as a format that is shown as this name, as a known
/// format and as an address format.
pub proof fn law_name_round_trip(i: int)
    requires
        0 <= i < names().len(),
    ensures
        named(names()[i]) matches Some(format) && network_of(format) == names()[i],
        prefix_named(names()[i]) matches Some(prefix) && display_of(prefix) == names()[i],
{
    lemma_names_ascending();
    law_tables_aligned(i);
    law_known_round_trip(formats()[i]);
}

/// An address format is read back from what it is shown as: a known one from its network
/// name, any other from its prefix in decimal digits.
pub proof fn law_display_round_trip(prefix: u16)
    ensures
        prefix_named(display_of(prefix)) == Some(prefix),
{
    match known(prefix) {
        Some(format) => {
            lemma_listed(format);
            law_name_round_trip(position_of(format));
            let read = named(network_of(format)).unwrap();
            lemma_name_decides(read, format);
        },
        None => {
            let digits = decimal_digits(prefix as nat);
            lemma_u16_read_back(prefix);
            assert forall|format: Ss58AddressFormatRegistry| network_of(format) != digits by {
                lemma_names_start_with_letters(format);
            }
        },
    }
}

/// From a 16-bit number to an address format and back gives the number.
pub proof fn law_prefix_round_trip(u: u16)
    ensures
        Ss58AddressFormat::of(u)@ == u,
        u16::from_spec(Ss58AddressFormat::from_spec(u)) == u,
{
    Ss58AddressFormat::lemma_of(u, Ss58AddressFormat::of(u));
}

} // verus!
