use ss58_registry::compile::compile;
use ss58_registry::ident::{
    account_identifier, check_identifier, derive_identifier, derive_token_identifier,
    IdentifierError,
};
use ss58_registry::record::{parse_signature_kind, same_text, AccountRecord, NamedRecord, SignatureKind};
use ss58_registry::registry::{
    all_formats, all_names, from_known_address_format, prefix_to_index, TokenRegistry,
};
use ss58_registry::runs::consecutive_runs;
use ss58_registry::search::{find_name, find_prefix};
use ss58_registry::sort::sorted_positions;
use ss58_registry::tables::{build_tables, ByNetwork};
use ss58_registry::text::{compare_text, Order};
use ss58_registry::validate::{annotate, validate, validate_named, RegistryError};

fn record(
    prefix: u16,
    network: &str,
    display_name: &str,
    standard_account: Option<&str>,
    tokens: &[(&str, u8)],
    website: Option<&str>,
) -> AccountRecord {
    AccountRecord {
        prefix,
        network: network.to_string(),
        display_name: display_name.to_string(),
        standard_account: standard_account.map(|s| s.to_string()),
        symbols: tokens.iter().map(|t| t.0.to_string()).collect(),
        decimals: tokens.iter().map(|t| t.1).collect(),
        website: website.map(|s| s.to_string()),
    }
}

fn plain(prefix: u16, network: &str) -> AccountRecord {
    record(prefix, network, network, Some("*25519"), &[], None)
}

fn document() -> Vec<AccountRecord> {
    let any = Some("*25519");
    vec![
        record(0, "polkadot", "Polkadot Relay Chain", any, &[("DOT", 10)], Some("https://polkadot.network")),
        record(1, "BareSr25519", "Bare 32-bit Schnorr/Ristretto (S/R 25519) public key.", None, &[], None),
        record(2, "kusama", "Kusama Relay Chain", any, &[("KSM", 12)], Some("https://kusama.network")),
        record(3, "BareEd25519", "Bare 32-bit Ed25519 public key.", None, &[], None),
        record(4, "katalchain", "Katal Chain", any, &[], None),
        record(5, "astar", "Astar Network", any, &[("ASTR", 18)], Some("https://astar.network")),
        record(6, "bifrost", "Bifrost", any, &[("BNC", 12)], Some("https://bifrost.finance/")),
        record(7, "edgeware", "Edgeware", any, &[("EDG", 18)], Some("https://edgewa.re")),
        record(8, "karura", "Karura", any, &[("KAR", 12)], Some("https://karura.network/")),
        record(9, "reynolds", "Laminar Reynolds Canary", any, &[("REY", 18)], Some("http://laminar.network/")),
        record(10, "acala", "Acala", any, &[("ACA", 12)], Some("https://acala.network/")),
        record(11, "laminar", "Laminar", any, &[("LAMI", 18)], Some("http://laminar.network/")),
        record(12, "polymesh", "Polymesh", any, &[("POLYX", 6)], Some("https://polymath.network/")),
        record(13, "integritee", "Integritee", any, &[("TEER", 12)], Some("https://integritee.network")),
        record(14, "totem", "Totem", any, &[("TOTEM", 0)], Some("https://totemaccounting.com")),
        record(15, "synesthesia", "Synesthesia", any, &[("SYN", 12)], Some("https://synesthesia.network/")),
        record(16, "kulupu", "Kulupu", any, &[("KLP", 12)], Some("https://kulupu.network/")),
        record(17, "dark", "Dark Mainnet", any, &[], None),
        record(18, "darwinia", "Darwinia Network", any, &[("RING", 9), ("KTON", 9)], Some("https://darwinia.network/")),
        record(42, "substrate", "Substrate", any, &[], Some("https://substrate.io/")),
        record(43, "BareSecp256k1", "Bare 32-bit ECDSA SECP-256k1 public key.", None, &[], None),
        record(46, "reserved46", "This prefix is reserved.", None, &[], None),
        record(47, "reserved47", "This prefix is reserved.", None, &[], None),
        record(89, "polkadex", "Polkadex Mainnet", any, &[("PDEX", 12)], Some("https://polkadex.trade")),
    ]
}

#[test]
fn runs_of_nothing() {
    assert_eq!(consecutive_runs(&[]), (vec![], vec![]));
}

#[test]
fn runs_of_one_number() {
    assert_eq!(consecutive_runs(&[5]), (vec![5], vec![5]));
}

#[test]
fn runs_of_several_stretches() {
    assert_eq!(consecutive_runs(&[1, 2, 3, 7, 8, 10]), (vec![1, 7, 10], vec![3, 8, 10]));
}

#[test]
fn runs_at_the_ends_of_the_range() {
    assert_eq!(consecutive_runs(&[0, 1, 65534, 65535]), (vec![0, 65534], vec![1, 65535]));
    assert_eq!(consecutive_runs(&[65535]), (vec![65535], vec![65535]));
    assert_eq!(consecutive_runs(&[65535, 0]), (vec![65535, 0], vec![65535, 0]));
    assert_eq!(consecutive_runs(&[3, 3, 4]), (vec![3, 3], vec![3, 4]));
}

#[test]
fn runs_hold_each_number_once() {
    let data = [0u16, 1, 2, 5, 9, 10, 11, 12, 40, 42, 43];
    let (starts, ends) = consecutive_runs(&data);
    assert_eq!(starts.len(), ends.len());
    for p in 0..60u16 {
        let holding = (0..starts.len()).filter(|&k| starts[k] <= p && p <= ends[k]).count();
        assert_eq!(holding, if data.contains(&p) { 1 } else { 0 });
    }
}

#[test]
fn identifier_is_derived_from_the_network_name() {
    assert_eq!(derive_identifier("polkadex"), "PolkadexAccount");
    assert_eq!(derive_identifier("reserved46"), "Reserved46Account");
    assert_eq!(derive_identifier("polkadot"), "PolkadotAccount");
    assert_eq!(derive_identifier("BareSecp256k1"), "BareSecp256K1Account");
    assert_eq!(derive_identifier("dock-pos-mainnet"), "DockPosMainnetAccount");
    assert_eq!(derive_identifier("zero_alphaville"), "ZeroAlphavilleAccount");
    assert_eq!(derive_identifier("ünïcode"), "ünïcodeAccount");
    assert_eq!(derive_identifier(""), "Account");
}

#[test]
fn identifier_ends_with_the_suffix() {
    assert_eq!(account_identifier("Kusama"), "KusamaAccount");
    assert_eq!(account_identifier(""), "Account");
}

#[test]
fn deriving_twice_from_the_stem_changes_nothing() {
    for network in all_names() {
        let once = derive_identifier(network);
        let stem = &once[..once.len() - "Account".len()];
        assert_eq!(derive_identifier(stem), once, "{}", network);
    }
}

#[test]
fn derived_identifiers_are_the_names_of_the_variants() {
    let names = all_names();
    let formats = all_formats();
    for i in 0..names.len() {
        assert_eq!(derive_identifier(names[i]), format!("{:?}", formats[i]));
    }
}

#[test]
fn identifiers_are_checked() {
    assert_eq!(check_identifier("PolkadotAccount"), Ok(()));
    assert_eq!(check_identifier("a"), Ok(()));
    assert_eq!(check_identifier("a_1"), Ok(()));
    assert_eq!(check_identifier("été"), Ok(()));
    assert_eq!(check_identifier(""), Err(IdentifierError::Empty));
    assert_eq!(check_identifier("1a"), Err(IdentifierError::InvalidStart { found: '1' }));
    assert_eq!(check_identifier("_a"), Err(IdentifierError::InvalidStart { found: '_' }));
    assert_eq!(check_identifier("a-b c"), Err(IdentifierError::InvalidChar { found: '-' }));
    assert_eq!(check_identifier("ab "), Err(IdentifierError::InvalidChar { found: ' ' }));
    assert_eq!(check_identifier("△"), Err(IdentifierError::InvalidStart { found: '△' }));
}

#[test]
fn signature_kinds_are_read() {
    assert_eq!(parse_signature_kind("Sr25519"), Some(SignatureKind::Sr25519));
    assert_eq!(parse_signature_kind("Ed25519"), Some(SignatureKind::Ed25519));
    assert_eq!(parse_signature_kind("secp256k1"), Some(SignatureKind::Secp256k1));
    assert_eq!(parse_signature_kind("*25519"), Some(SignatureKind::Any25519));
    assert_eq!(parse_signature_kind("sr25519"), None);
    assert_eq!(parse_signature_kind(""), None);
    assert_eq!(parse_signature_kind("Secp256k1"), None);
}

#[test]
fn texts_are_compared_by_code_point() {
    assert_eq!(compare_text("", ""), Order::Equal);
    assert_eq!(compare_text("", "a"), Order::Less);
    assert_eq!(compare_text("a", ""), Order::Greater);
    assert_eq!(compare_text("abc", "abd"), Order::Less);
    assert_eq!(compare_text("abc", "ab"), Order::Greater);
    assert_eq!(compare_text("B", "a"), Order::Less);
    assert_eq!(compare_text("kusama", "kusama"), Order::Equal);
    assert_eq!(compare_text("z", "é"), Order::Less);
    assert_eq!(compare_text("\u{ff5e}", "\u{10000}"), Order::Less);
    assert!(same_text("polkadot", "polkadot"));
    assert!(!same_text("polkadot", "polkadex"));
    let words = ["", "B", "a", "ab", "abc", "b", "é", "\u{10000}"];
    for x in words {
        for y in words {
            let expected = match x.cmp(y) {
                std::cmp::Ordering::Less => Order::Less,
                std::cmp::Ordering::Equal => Order::Equal,
                std::cmp::Ordering::Greater => Order::Greater,
            };
            assert_eq!(compare_text(x, y), expected, "{:?} {:?}", x, y);
        }
    }
}

#[test]
fn bisection_finds_what_is_there() {
    let index = [(1u16, 2usize), (4, 0), (9, 1), (20, 3)];
    assert_eq!(find_prefix(&index, 1), Some(0));
    assert_eq!(find_prefix(&index, 4), Some(1));
    assert_eq!(find_prefix(&index, 9), Some(2));
    assert_eq!(find_prefix(&index, 20), Some(3));
    assert_eq!(find_prefix(&index, 0), None);
    assert_eq!(find_prefix(&index, 5), None);
    assert_eq!(find_prefix(&index, 21), None);
    assert_eq!(find_prefix(&[], 0), None);
    let names = ["alpha", "beta", "delta"];
    assert_eq!(find_name(&names, "alpha"), Some(0));
    assert_eq!(find_name(&names, "beta"), Some(1));
    assert_eq!(find_name(&names, "delta"), Some(2));
    assert_eq!(find_name(&names, "gamma"), None);
    assert_eq!(find_name(&names, ""), None);
    assert_eq!(find_name(&[], "alpha"), None);
}

#[test]
fn positions_are_sorted_by_network_name() {
    let named = annotate(vec![plain(1, "b"), plain(2, "a"), plain(3, "c"), plain(4, "a"), plain(5, "B")]);
    let order = sorted_positions(&ByNetwork { records: &named });
    assert_eq!(order, vec![4, 1, 3, 0, 2]);
    let none: Vec<NamedRecord> = Vec::new();
    assert_eq!(sorted_positions(&ByNetwork { records: &none }), Vec::<usize>::new());
}

#[test]
fn valid_document_passes() {
    assert_eq!(validate(document()), Ok(()));
    assert_eq!(validate(vec![]), Ok(()));
}

#[test]
fn duplicate_prefix_is_refused() {
    let records = vec![plain(1, "one"), plain(2, "two"), plain(1, "three")];
    assert_eq!(validate(records), Err(RegistryError::DuplicatePrefix { index: 2, clash: 0 }));
}

#[test]
fn duplicate_network_is_refused() {
    let records = vec![plain(1, "one"), plain(2, "foo_bar"), plain(3, "fooBar")];
    assert_eq!(validate(records), Err(RegistryError::DuplicateNetwork { index: 2, clash: 1 }));
    let same = vec![plain(1, "one"), plain(2, "one")];
    assert_eq!(validate(same), Err(RegistryError::DuplicateNetwork { index: 1, clash: 0 }));
}

#[test]
fn empty_network_is_refused() {
    let records = vec![plain(1, "one"), plain(2, "")];
    assert_eq!(validate(records), Err(RegistryError::EmptyNetwork { index: 1 }));
}

#[test]
fn invalid_identifier_is_refused() {
    let records = vec![plain(1, "9lives")];
    assert_eq!(
        validate(records),
        Err(RegistryError::InvalidIdentifier {
            index: 0,
            reason: IdentifierError::InvalidStart { found: '9' },
        })
    );
    let later = vec![plain(1, "one"), plain(2, "a²")];
    assert_eq!(
        validate(later),
        Err(RegistryError::InvalidIdentifier {
            index: 1,
            reason: IdentifierError::InvalidChar { found: '²' },
        })
    );
}

#[test]
fn symbols_without_decimals_are_refused() {
    let mut odd = plain(7, "odd");
    odd.symbols = vec!["ODD".to_string(), "EVEN".to_string()];
    odd.decimals = vec![3];
    assert_eq!(
        validate(vec![plain(1, "one"), odd]),
        Err(RegistryError::SymbolDecimalMismatch { index: 1 })
    );
}

#[test]
fn unknown_signature_kind_is_refused() {
    let strange = record(7, "strange", "Strange", Some("Sr25518"), &[], None);
    assert_eq!(
        validate(vec![plain(1, "one"), plain(2, "two"), strange]),
        Err(RegistryError::UnknownSignatureKind { index: 2 })
    );
}

#[test]
fn first_broken_rule_of_the_first_failing_record_is_reported() {
    let mut both = record(1, "", "Both", Some("nothing"), &[("A", 1)], None);
    both.decimals = vec![];
    let records = vec![plain(1, "one"), both.clone(), plain(1, "one")];
    assert_eq!(validate(records), Err(RegistryError::DuplicatePrefix { index: 1, clash: 0 }));
    both.prefix = 2;
    let records = vec![plain(1, "one"), both.clone(), plain(1, "one")];
    assert_eq!(validate(records), Err(RegistryError::EmptyNetwork { index: 1 }));
    both.network = "two".to_string();
    let records = vec![plain(1, "one"), both.clone()];
    assert_eq!(validate(records), Err(RegistryError::SymbolDecimalMismatch { index: 1 }));
    both.decimals = vec![1];
    let records = vec![plain(1, "one"), both];
    assert_eq!(validate(records), Err(RegistryError::UnknownSignatureKind { index: 1 }));
}

#[test]
fn validation_goes_by_the_identifiers_given() {
    let named = vec![
        NamedRecord { record: plain(1, "one"), identifier: "Same".to_string() },
        NamedRecord { record: plain(2, "two"), identifier: "Same".to_string() },
    ];
    assert_eq!(validate_named(&named), Err(RegistryError::DuplicateNetwork { index: 1, clash: 0 }));
    let fine = vec![
        NamedRecord { record: plain(1, "one"), identifier: "One".to_string() },
        NamedRecord { record: plain(2, "two"), identifier: "Two".to_string() },
    ];
    assert_eq!(validate_named(&fine), Ok(()));
    let bad = vec![NamedRecord { record: plain(1, "one"), identifier: "a b".to_string() }];
    assert_eq!(
        validate_named(&bad),
        Err(RegistryError::InvalidIdentifier {
            index: 0,
            reason: IdentifierError::InvalidChar { found: ' ' },
        })
    );
}

#[test]
fn invalid_document_gives_no_tables() {
    let records = vec![plain(1, "one"), plain(1, "two")];
    assert_eq!(compile(records).err(), Some(RegistryError::DuplicatePrefix { index: 1, clash: 0 }));
}

#[test]
fn tables_of_a_small_document() {
    let records = vec![
        record(5, "zeta", "Zeta", Some("Sr25519"), &[("ZET", 4), ("COM", 2)], Some("https://zeta.example")),
        record(3, "alpha", "Alpha", None, &[], None),
        record(4, "mid", "Mid", Some("Ed25519"), &[("COM", 2), ("MID", 9), ("COM", 3)], None),
        record(9, "beta", "Beta", None, &[], Some("https://beta.example")),
    ];
    let tables = compile(records).expect("valid");
    let networks: Vec<&str> = tables.entries.iter().map(|e| e.network.as_str()).collect();
    assert_eq!(networks, vec!["alpha", "beta", "mid", "zeta"]);
    let sources: Vec<usize> = tables.entries.iter().map(|e| e.source).collect();
    assert_eq!(sources, vec![1, 3, 2, 0]);
    let prefixes: Vec<u16> = tables.entries.iter().map(|e| e.prefix).collect();
    assert_eq!(prefixes, vec![3, 9, 4, 5]);
    let identifiers: Vec<&str> = tables.entries.iter().map(|e| e.identifier.as_str()).collect();
    assert_eq!(identifiers, vec!["AlphaAccount", "BetaAccount", "MidAccount", "ZetaAccount"]);
    let descriptions: Vec<&str> = tables.entries.iter().map(|e| e.description.as_str()).collect();
    assert_eq!(
        descriptions,
        vec!["Alpha", "Beta - <https://beta.example>", "Mid", "Zeta - <https://zeta.example>"]
    );
    let reserved: Vec<bool> = tables.entries.iter().map(|e| e.reserved).collect();
    assert_eq!(reserved, vec![true, true, false, false]);
    assert_eq!(tables.prefix_to_index, vec![(3, 0), (4, 2), (5, 3), (9, 1)]);
    assert_eq!(tables.reserved_prefixes, vec![3, 9]);
    assert_eq!(tables.run_starts, vec![3, 9]);
    assert_eq!(tables.run_ends, vec![5, 9]);
    let tokens: Vec<(&str, u8)> = tables.tokens.iter().map(|t| (t.name.as_str(), t.decimals)).collect();
    assert_eq!(tokens, vec![("COM", 2), ("MID", 9), ("COM", 3), ("ZET", 4)]);
    assert_eq!(tables.entries[0].tokens, Vec::<usize>::new());
    assert_eq!(tables.entries[2].tokens, vec![0, 1, 2]);
    assert_eq!(tables.entries[3].tokens, vec![3, 0]);
}

#[test]
fn reserved_rows_list_no_tokens() {
    let records = vec![
        record(1, "held", "Held", None, &[("HLD", 5)], None),
        record(2, "open", "Open", Some("Sr25519"), &[("OPN", 6), ("HLD", 5)], None),
    ];
    let tables = compile(records).expect("valid");
    assert_eq!(tables.entries[0].tokens, Vec::<usize>::new());
    assert_eq!(tables.entries[1].tokens, vec![1, 0]);
    let tokens: Vec<(&str, u8)> = tables.tokens.iter().map(|t| (t.name.as_str(), t.decimals)).collect();
    assert_eq!(tokens, vec![("HLD", 5), ("OPN", 6)]);
}

#[test]
fn token_identifier_is_the_ticker_in_pascal_case() {
    assert_eq!(derive_token_identifier("DOT"), "Dot");
    assert_eq!(derive_token_identifier("KTON"), "Kton");
    assert_eq!(derive_token_identifier("POLYX"), "Polyx");
}

#[test]
fn tables_of_an_empty_document() {
    let tables = compile(vec![]).expect("valid");
    assert!(tables.entries.is_empty());
    assert!(tables.prefix_to_index.is_empty());
    assert!(tables.reserved_prefixes.is_empty());
    assert!(tables.run_starts.is_empty());
    assert!(tables.run_ends.is_empty());
    assert!(tables.tokens.is_empty());
}

#[test]
fn tables_are_built_of_any_named_records() {
    let mut short = plain(2, "same");
    short.symbols = vec!["A".to_string(), "B".to_string()];
    short.decimals = vec![1];
    let named = annotate(vec![plain(2, "same"), short, plain(2, "other")]);
    let tables = build_tables(&named);
    let sources: Vec<usize> = tables.entries.iter().map(|e| e.source).collect();
    assert_eq!(sources, vec![2, 0, 1]);
    assert_eq!(tables.prefix_to_index, vec![(2, 0), (2, 1), (2, 2)]);
    assert_eq!(tables.entries[2].tokens, vec![0]);
    assert_eq!(tables.tokens.len(), 1);
    assert_eq!(tables.run_starts, vec![2, 2, 2]);
    assert_eq!(tables.run_ends, vec![2, 2, 2]);
}

#[test]
fn compiled_registry_is_what_its_document_compiles_to() {
    let tables = compile(document()).expect("valid");
    let names = all_names();
    let formats = all_formats();
    assert_eq!(tables.entries.len(), formats.len());
    for (i, entry) in tables.entries.iter().enumerate() {
        assert_eq!(entry.network, names[i]);
        assert_eq!(entry.prefix, from_known_address_format(formats[i]));
        assert_eq!(entry.identifier, format!("{:?}", formats[i]));
        let attributes: Vec<(&str, u8)> =
            entry.tokens.iter().map(|t| (tables.tokens[*t].name.as_str(), tables.tokens[*t].decimals)).collect();
        let expected: Vec<(&str, u8)> = formats[i].tokens().iter().map(|t| t.attributes()).collect();
        assert_eq!(attributes, expected);
        let address = ss58_registry::address_format::Ss58AddressFormat::custom(entry.prefix);
        assert_eq!(entry.reserved, address.is_reserved());
    }
    assert_eq!(tables.prefix_to_index.as_slice(), prefix_to_index());
    assert_eq!(tables.reserved_prefixes, vec![3, 43, 1, 46, 47]);
    assert_eq!(tables.run_starts, vec![0, 42, 46, 89]);
    assert_eq!(tables.run_ends, vec![18, 43, 47, 89]);
    let tokens: Vec<(&str, u8)> = tables.tokens.iter().map(|t| (t.name.as_str(), t.decimals)).collect();
    let variants = [
        TokenRegistry::Aca, TokenRegistry::Astr, TokenRegistry::Bnc, TokenRegistry::Ring,
        TokenRegistry::Kton, TokenRegistry::Edg, TokenRegistry::Teer, TokenRegistry::Kar,
        TokenRegistry::Klp, TokenRegistry::Ksm, TokenRegistry::Lami, TokenRegistry::Pdex,
        TokenRegistry::Dot, TokenRegistry::Polyx, TokenRegistry::Rey, TokenRegistry::Syn,
        TokenRegistry::Totem,
    ];
    let expected: Vec<(&str, u8)> = variants.iter().map(|t| t.attributes()).collect();
    assert_eq!(tokens, expected);
}
