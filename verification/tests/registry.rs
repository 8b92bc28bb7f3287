use ss58_registry::registry::{all_formats, all_names, prefix_to_index, REGISTRY_SIZE};
use ss58_registry::{
    from_address_format, from_known_address_format, ParseError, Ss58AddressFormat,
    Ss58AddressFormatRegistry, TokenRegistry,
};

#[test]
fn is_reserved() {
    let reserved: Ss58AddressFormat = Ss58AddressFormatRegistry::Reserved46Account.into();
    assert!(reserved.is_reserved());

    let not_reserved: Ss58AddressFormat = Ss58AddressFormatRegistry::PolkadexAccount.into();
    assert!(!not_reserved.is_reserved());

    assert!(!Ss58AddressFormat::custom(100).is_reserved());
}

#[test]
fn is_custom() {
    assert!(Ss58AddressFormat::custom(432).is_custom());

    let reserved: Ss58AddressFormat = Ss58AddressFormatRegistry::Reserved46Account.into();
    assert!(!reserved.is_custom());

    let not_reserved: Ss58AddressFormat = Ss58AddressFormatRegistry::PolkadexAccount.into();
    assert!(!not_reserved.is_custom());
}

#[test]
fn enum_to_name_and_back() {
    for name in Ss58AddressFormat::all_names() {
        let val: Ss58AddressFormatRegistry = (*name).try_into().expect(name);
        assert_eq!(name, &val.to_string());
    }
}

#[test]
fn prefix() {
    let dot: Ss58AddressFormat = Ss58AddressFormatRegistry::PolkadotAccount.into();
    assert_eq!(dot.prefix(), 0);
    let ksm: Ss58AddressFormat = Ss58AddressFormatRegistry::KusamaAccount.into();
    assert_eq!(ksm.prefix(), 2);
}

#[test]
fn tokens() {
    let polka = Ss58AddressFormatRegistry::PolkadotAccount;
    assert_eq!(polka.tokens(), vec![TokenRegistry::Dot]);
    let kusama = Ss58AddressFormatRegistry::KusamaAccount;
    assert_eq!(kusama.tokens(), vec![TokenRegistry::Ksm]);
    let darwinia = Ss58AddressFormatRegistry::DarwiniaAccount;
    assert_eq!(darwinia.tokens(), vec![TokenRegistry::Ring, TokenRegistry::Kton]);
    let n46 = Ss58AddressFormatRegistry::Reserved46Account;
    assert_eq!(n46.tokens(), vec![]);
}

#[test]
fn prefixes_above_the_limit_are_reserved() {
    assert!(Ss58AddressFormat::custom(16385).is_reserved());
    assert!(Ss58AddressFormat::custom(20000).is_reserved());
    assert!(Ss58AddressFormat::custom(u16::MAX).is_reserved());
}

#[test]
fn the_limit_itself_is_reserved_only_if_listed() {
    assert!(!Ss58AddressFormat::custom(16384).is_reserved());
    assert!(!Ss58AddressFormat::custom(16383).is_reserved());
}

#[test]
fn listed_reserved_prefixes() {
    for prefix in [1u16, 3, 43, 46, 47] {
        assert!(Ss58AddressFormat::custom(prefix).is_reserved(), "{}", prefix);
    }
    for prefix in [0u16, 2, 42, 44, 45, 48, 89] {
        assert!(!Ss58AddressFormat::custom(prefix).is_reserved(), "{}", prefix);
    }
}

#[test]
fn custom_is_what_lies_in_no_run() {
    for prefix in 0..=u16::MAX {
        let known = (0..=18).contains(&prefix)
            || (42..=43).contains(&prefix)
            || (46..=47).contains(&prefix)
            || prefix == 89;
        assert_eq!(Ss58AddressFormat::custom(prefix).is_custom(), !known, "{}", prefix);
    }
}

#[test]
fn custom_is_what_no_known_format_has() {
    for prefix in 0..=u16::MAX {
        let format = Ss58AddressFormat::custom(prefix);
        let listed = all_formats().iter().any(|f| from_known_address_format(*f) == prefix);
        assert_eq!(format.is_custom(), !listed);
        assert_eq!(Ss58AddressFormatRegistry::try_from(format).is_ok(), listed);
    }
}

#[test]
fn known_prefixes() {
    assert_eq!(from_known_address_format(Ss58AddressFormatRegistry::PolkadotAccount), 0);
    assert_eq!(from_known_address_format(Ss58AddressFormatRegistry::KusamaAccount), 2);
    assert_eq!(from_known_address_format(Ss58AddressFormatRegistry::PolkadexAccount), 89);
    assert_eq!(from_known_address_format(Ss58AddressFormatRegistry::Reserved46Account), 46);
    assert_eq!(from_known_address_format(Ss58AddressFormatRegistry::DarwiniaAccount), 18);
    assert_eq!(from_known_address_format(Ss58AddressFormatRegistry::BareSecp256K1Account), 43);
}

#[test]
fn tables_have_one_entry_for_each_format() {
    assert_eq!(all_formats().len(), REGISTRY_SIZE);
    assert_eq!(all_names().len(), REGISTRY_SIZE);
    assert_eq!(prefix_to_index().len(), REGISTRY_SIZE);
    assert_eq!(Ss58AddressFormat::all().len(), REGISTRY_SIZE);
    assert_eq!(Ss58AddressFormat::all_names().len(), REGISTRY_SIZE);
}

#[test]
fn names_are_sorted() {
    let names = all_names();
    for i in 1..names.len() {
        assert!(names[i - 1] < names[i], "{} {}", names[i - 1], names[i]);
    }
    assert_eq!(names[0], "BareEd25519");
    assert_eq!(names[names.len() - 1], "totem");
}

#[test]
fn names_and_formats_are_aligned() {
    let names = all_names();
    let formats = all_formats();
    for i in 0..REGISTRY_SIZE {
        assert_eq!(formats[i].to_string(), names[i]);
        assert_eq!(Ss58AddressFormatRegistry::try_from(names[i]), Ok(formats[i]));
    }
    assert_eq!(names[16], "polkadot");
    assert_eq!(formats[16], Ss58AddressFormatRegistry::PolkadotAccount);
}

#[test]
fn prefix_index_is_sorted_and_permutes_the_positions() {
    let index = prefix_to_index();
    let formats = all_formats();
    for k in 1..index.len() {
        assert!(index[k - 1].0 < index[k].0);
    }
    let mut seen = vec![false; REGISTRY_SIZE];
    for (prefix, position) in index.iter() {
        assert!(!seen[*position]);
        seen[*position] = true;
        assert_eq!(from_known_address_format(formats[*position]), *prefix);
    }
    assert!(seen.iter().all(|s| *s));
    assert_eq!(index[0], (0, 16));
    assert_eq!(index[23], (89, 15));
}

#[test]
fn known_format_round_trip() {
    for format in all_formats() {
        let address: Ss58AddressFormat = (*format).into();
        assert_eq!(Ss58AddressFormatRegistry::try_from(address), Ok(*format));
    }
}

#[test]
fn name_round_trip_through_the_address_format() {
    for name in all_names() {
        let address = Ss58AddressFormat::try_from(*name).expect(name);
        assert_eq!(address.to_string(), *name);
        assert_eq!(String::from(address), *name);
    }
}

#[test]
fn prefix_round_trip() {
    for u in 0..=u16::MAX {
        assert_eq!(u16::from(Ss58AddressFormat::from(u)), u);
        assert_eq!(from_address_format(Ss58AddressFormat::custom(u)), u);
        assert_eq!(Ss58AddressFormat::from(u).prefix(), u);
    }
    for u in 0..=u8::MAX {
        assert_eq!(u16::from(Ss58AddressFormat::from(u)), u16::from(u));
    }
}

#[test]
fn address_format_is_read_back_from_what_it_is_shown_as() {
    for u in 0..=u16::MAX {
        let format = Ss58AddressFormat::custom(u);
        assert_eq!(Ss58AddressFormat::try_from(format.to_string().as_str()), Ok(format));
    }
}

#[test]
fn unknown_prefix_is_no_known_format() {
    assert_eq!(
        Ss58AddressFormatRegistry::try_from(Ss58AddressFormat::custom(432)),
        Err(ParseError)
    );
    assert_eq!(
        Ss58AddressFormatRegistry::try_from(Ss58AddressFormat::custom(19)),
        Err(ParseError)
    );
}

#[test]
fn unknown_name_is_no_known_format() {
    assert_eq!(Ss58AddressFormatRegistry::try_from("nowhere"), Err(ParseError));
    assert_eq!(Ss58AddressFormatRegistry::try_from(""), Err(ParseError));
    assert_eq!(Ss58AddressFormatRegistry::try_from("Polkadot"), Err(ParseError));
    assert_eq!(Ss58AddressFormatRegistry::try_from("polkado"), Err(ParseError));
    assert_eq!(Ss58AddressFormatRegistry::try_from("polkadots"), Err(ParseError));
    assert_eq!(Ss58AddressFormatRegistry::try_from("42"), Err(ParseError));
    assert_eq!("kusama".parse::<Ss58AddressFormatRegistry>(), Ok(Ss58AddressFormatRegistry::KusamaAccount));
    assert_eq!("kusamas".parse::<Ss58AddressFormatRegistry>(), Err(ParseError));
}

#[test]
fn address_format_from_text() {
    assert_eq!(Ss58AddressFormat::try_from("polkadot"), Ok(Ss58AddressFormat::custom(0)));
    assert_eq!(Ss58AddressFormat::try_from("polkadex"), Ok(Ss58AddressFormat::custom(89)));
    assert_eq!(Ss58AddressFormat::try_from("432"), Ok(Ss58AddressFormat::custom(432)));
    assert_eq!(Ss58AddressFormat::try_from("0"), Ok(Ss58AddressFormat::custom(0)));
    assert_eq!(Ss58AddressFormat::try_from("65535"), Ok(Ss58AddressFormat::custom(65535)));
    assert_eq!(Ss58AddressFormat::try_from("65536"), Err(ParseError));
    assert_eq!(Ss58AddressFormat::try_from("+5"), Err(ParseError));
    assert_eq!(Ss58AddressFormat::try_from(" 5"), Err(ParseError));
    assert_eq!(Ss58AddressFormat::try_from("5 "), Err(ParseError));
    assert_eq!(Ss58AddressFormat::try_from("-1"), Err(ParseError));
    assert_eq!(Ss58AddressFormat::try_from(""), Err(ParseError));
    assert_eq!(Ss58AddressFormat::try_from("nowhere"), Err(ParseError));
}

#[test]
fn address_format_is_shown_by_name_or_number() {
    assert_eq!(Ss58AddressFormat::custom(0).to_string(), "polkadot");
    assert_eq!(Ss58AddressFormat::custom(2).to_string(), "kusama");
    assert_eq!(Ss58AddressFormat::custom(43).to_string(), "BareSecp256k1");
    assert_eq!(Ss58AddressFormat::custom(432).to_string(), "432");
    assert_eq!(Ss58AddressFormat::custom(19).to_string(), "19");
    assert_eq!(Ss58AddressFormat::custom(65535).to_string(), "65535");
    assert_eq!(Ss58AddressFormatRegistry::DarwiniaAccount.to_string(), "darwinia");
}

#[test]
fn parse_error_text() {
    assert_eq!(ParseError.to_string(), "failed to parse network value as u16");
}

#[test]
fn custom_formats_differ_by_prefix() {
    assert!(Ss58AddressFormat::custom(1) != Ss58AddressFormat::custom(2));
    assert!(Ss58AddressFormat::custom(7) == Ss58AddressFormat::from(7u8));
}

#[test]
fn token_attributes() {
    assert_eq!(TokenRegistry::Dot.attributes(), ("DOT", 10));
    assert_eq!(TokenRegistry::Ksm.attributes(), ("KSM", 12));
    assert_eq!(TokenRegistry::Ring.attributes(), ("RING", 9));
    assert_eq!(TokenRegistry::Kton.attributes(), ("KTON", 9));
    assert_eq!(TokenRegistry::Totem.attributes(), ("TOTEM", 0));
    assert_eq!(TokenRegistry::Polyx.attributes(), ("POLYX", 6));
}

#[test]
fn created_token_has_the_attributes_of_its_variant() {
    let token = TokenRegistry::Dot.create_token(100_000_000);
    assert_eq!(token.name, "DOT");
    assert_eq!(token.decimals, 10);
    assert_eq!(token.amount, 100_000_000);
    assert_eq!(token.to_string(), "0,010 DOT");
    assert_eq!(token.to_debug_string(), "0,010 DOT (100_000_000)");
}

#[test]
fn token_is_shown_for_inspection() {
    assert_eq!(TokenRegistry::Dot.to_debug_string(), "TokenRegistry { name: \"DOT\", decimals: 10 }");
    assert_eq!(TokenRegistry::Totem.to_debug_string(), "TokenRegistry { name: \"TOTEM\", decimals: 0 }");
    assert_eq!(TokenRegistry::Kton.to_debug_string(), "TokenRegistry { name: \"KTON\", decimals: 9 }");
}

#[test]
fn reserved_networks_have_no_tokens() {
    for format in all_formats() {
        let address: Ss58AddressFormat = (*format).into();
        if address.is_reserved() {
            assert!(format.tokens().is_empty());
        }
    }
}
