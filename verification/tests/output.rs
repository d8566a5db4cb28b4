use adapter_config::config::{AdapterInfo, ConfigError};
use adapter_config::output::{
    adapter_from_record, adapters_from_listing, address_from_listing, address_from_record,
    decode_adapters, decode_address, friendly_label, listing_values, AdapterRecord, AddressRecord,
};
use adapter_config::text::{contains_replacement, REPLACEMENT_CHARACTER};

fn adapter(name: &str, status: &str) -> AdapterInfo {
    AdapterInfo { name: name.to_string(), status: status.to_string() }
}

fn text(s: &str) -> Option<String> {
    Some(s.to_string())
}

fn record(name: Option<&str>, status: Option<&str>, description: Option<&str>) -> AdapterRecord {
    AdapterRecord {
        name: name.map(|s| s.to_string()),
        status: status.map(|s| s.to_string()),
        description: description.map(|s| s.to_string()),
    }
}

fn address(address: Option<&str>, prefix: Option<u64>) -> AddressRecord {
    AddressRecord { address: address.map(|s| s.to_string()), prefix }
}

fn unparseable(listing: &str) -> ConfigError {
    ConfigError::UnparseableOutput(listing.to_string())
}

#[test]
fn label_is_name_and_status() {
    assert_eq!(friendly_label("Ethernet", "Up", Some("Intel(R) I219-V")), "Ethernet (Up)");
    assert_eq!(friendly_label("Wi-Fi", "Disconnected", None), "Wi-Fi (Disconnected)");
    assert_eq!(friendly_label("", "", None), " ()");
}

#[test]
fn label_of_garbled_name_comes_from_the_description() {
    assert_eq!(
        friendly_label("\u{fffd}\u{fffd}\u{fffd} 2", "Up", Some("Realtek PCIe GbE")),
        "Realtek PCIe GbE (Up)"
    );
    assert_eq!(friendly_label("a\u{fffd}", "Down", Some("")), " (Down)");
}

#[test]
fn label_of_garbled_name_without_description_keeps_the_name() {
    assert_eq!(friendly_label("\u{fffd}x", "Up", None), "\u{fffd}x (Up)");
}

#[test]
fn replacement_character_is_found_anywhere() {
    assert_eq!(REPLACEMENT_CHARACTER, '\u{fffd}');
    assert!(contains_replacement("\u{fffd}"));
    assert!(contains_replacement("abc\u{fffd}"));
    assert!(contains_replacement("\u{fffd}abc"));
    assert!(contains_replacement("a\u{fffd}c"));
    assert!(!contains_replacement(""));
    assert!(!contains_replacement("abc"));
    assert!(!contains_replacement("\u{fffc}\u{fffe}?"));
}

#[test]
fn record_needs_name_and_status() {
    assert_eq!(
        adapter_from_record(&record(Some("Eth0"), Some("Up"), Some("Intel"))),
        Some(adapter("Eth0", "Eth0 (Up)"))
    );
    assert_eq!(
        adapter_from_record(&record(Some("Eth0"), Some("Up"), None)),
        Some(adapter("Eth0", "Eth0 (Up)"))
    );
    assert_eq!(
        adapter_from_record(&record(Some("\u{fffd}"), Some("Up"), Some("Intel"))),
        Some(adapter("\u{fffd}", "Intel (Up)"))
    );
    assert_eq!(adapter_from_record(&record(None, Some("Up"), Some("Intel"))), None);
    assert_eq!(adapter_from_record(&record(Some("Eth0"), None, Some("Intel"))), None);
    assert_eq!(adapter_from_record(&record(None, None, None)), None);
    let read = AdapterRecord { name: text("A"), status: text("Up"), description: None };
    assert_eq!(read, record(Some("A"), Some("Up"), None));
}

#[test]
fn array_of_records_gives_an_adapter_for_each_record() {
    let records = vec![
        record(Some("A"), Some("Up"), Some("first")),
        record(Some("\u{fffd}"), Some("Down"), Some("second")),
        record(Some("C"), Some("Up"), None),
    ];
    assert_eq!(
        adapters_from_listing(Some(records), None, "raw"),
        Ok(vec![adapter("A", "A (Up)"), adapter("\u{fffd}", "second (Down)"), adapter("C", "C (Up)")])
    );
}

#[test]
fn array_comes_before_the_single_record() {
    let single = record(Some("S"), Some("Up"), None);
    assert_eq!(
        adapters_from_listing(Some(vec![record(Some("A"), Some("Up"), None)]), Some(single.clone()), "raw"),
        Ok(vec![adapter("A", "A (Up)")])
    );
    assert_eq!(adapters_from_listing(Some(vec![]), Some(single.clone()), "raw"), Ok(vec![]));
    assert_eq!(
        adapters_from_listing(Some(vec![record(None, Some("Up"), None)]), Some(single.clone()), "raw"),
        Err(unparseable("raw"))
    );
    assert_eq!(adapters_from_listing(None, Some(single), "raw"), Ok(vec![adapter("S", "S (Up)")]));
}

#[test]
fn array_with_a_record_that_describes_nothing_is_unparseable() {
    let good = record(Some("A"), Some("Up"), None);
    for bad in [
        record(None, Some("Up"), Some("x")),
        record(Some("B"), None, Some("x")),
        record(None, None, None),
    ] {
        for records in [
            vec![bad.clone()],
            vec![good.clone(), bad.clone()],
            vec![bad.clone(), good.clone()],
            vec![good.clone(), bad.clone(), good.clone()],
        ] {
            assert_eq!(adapters_from_listing(Some(records), None, "raw text"), Err(unparseable("raw text")));
        }
    }
}

#[test]
fn single_record_that_describes_nothing_is_unparseable() {
    assert_eq!(
        adapters_from_listing(None, Some(record(None, Some("Up"), None)), "raw"),
        Err(unparseable("raw"))
    );
    assert_eq!(adapters_from_listing(None, None, "raw"), Err(unparseable("raw")));
    assert_eq!(adapters_from_listing(None, None, ""), Err(unparseable("")));
}

#[test]
fn address_of_a_listing_is_that_of_its_first_complete_record() {
    assert_eq!(address_from_record(&address(Some("10.0.0.5"), Some(8))), Some(("10.0.0.5".to_string(), 8)));
    assert_eq!(address_from_record(&address(Some("10.0.0.5"), None)), None);
    assert_eq!(address_from_record(&address(None, Some(8))), None);
    let records = vec![
        address(Some("1.1.1.1"), None),
        address(None, Some(1)),
        address(Some("2.2.2.2"), Some(2)),
        address(Some("3.3.3.3"), Some(3)),
    ];
    let single = address(Some("9.9.9.9"), Some(9));
    assert_eq!(
        address_from_listing(Some(records), Some(single.clone())),
        Some(("2.2.2.2".to_string(), 2))
    );
    assert_eq!(address_from_listing(Some(vec![]), Some(single.clone())), None);
    assert_eq!(address_from_listing(None, Some(single)), Some(("9.9.9.9".to_string(), 9)));
    assert_eq!(address_from_listing(None, Some(address(None, Some(9)))), None);
    assert_eq!(address_from_listing(None, None), None);
}

#[test]
fn listing_of_several_adapters_is_an_array() {
    let listing = r#"[{"Name":"Ethernet","Status":"Up","DisplayName":"Intel(R) I219-V"},{"Name":"Wi-Fi","Status":"Disconnected","DisplayName":"Intel(R) Wi-Fi 6"}]"#;
    assert_eq!(
        decode_adapters(listing),
        Ok(vec![adapter("Ethernet", "Ethernet (Up)"), adapter("Wi-Fi", "Wi-Fi (Disconnected)")])
    );
}

#[test]
fn listing_of_one_adapter_is_a_bare_record() {
    let listing = r#"{"Name":"Ethernet","Status":"Up","DisplayName":"Intel(R) I219-V"}"#;
    assert_eq!(decode_adapters(listing), Ok(vec![adapter("Ethernet", "Ethernet (Up)")]));
}

#[test]
fn listing_of_one_adapter_in_an_array() {
    let listing = r#"[{"Name":"Ethernet","Status":"Up"}]"#;
    assert_eq!(decode_adapters(listing), Ok(vec![adapter("Ethernet", "Ethernet (Up)")]));
}

#[test]
fn garbled_name_in_a_listing_is_labelled_by_description() {
    let listing = "[{\"Name\":\"\u{fffd}\u{fffd}\u{fffd}\u{fffd}\",\"Status\":\"Up\",\"DisplayName\":\"Realtek PCIe GbE Family Controller\"}]";
    assert_eq!(
        decode_adapters(listing),
        Ok(vec![adapter(
            "\u{fffd}\u{fffd}\u{fffd}\u{fffd}",
            "Realtek PCIe GbE Family Controller (Up)"
        )])
    );
    let escaped = r#"{"Name":"\ufffd 3","Status":"Up","DisplayName":"TAP Adapter"}"#;
    assert_eq!(decode_adapters(escaped), Ok(vec![adapter("\u{fffd} 3", "TAP Adapter (Up)")]));
}

#[test]
fn listing_with_a_record_without_name_or_status_is_unparseable() {
    for listing in [
        r#"[{"Status":"Up"}]"#,
        r#"[{"Name":"B"}]"#,
        r#"[{"Name":"A","Status":"Up"},{"Name":"B"}]"#,
        r#"[{"Status":"Up"},{"Name":"A","Status":"Up"}]"#,
        r#"[{"Name":"A","Status":"Up"},{"Name":3,"Status":"Up"}]"#,
        r#"[{"Name":"C","Status":null}]"#,
        r#"[{"Name":"A","Status":"Up"},7]"#,
        r#"["x"]"#,
        r#"[null]"#,
        r#"[[]]"#,
        r#"[{}]"#,
    ] {
        assert_eq!(decode_adapters(listing), Err(unparseable(listing)), "{:?}", listing);
    }
}

#[test]
fn description_that_is_no_string_counts_as_absent() {
    let listing = r#"[{"Name":"A","Status":"Up"},{"Name":"D","Status":"Down","DisplayName":5}]"#;
    assert_eq!(
        decode_adapters(listing),
        Ok(vec![adapter("A", "A (Up)"), adapter("D", "D (Down)")])
    );
}

#[test]
fn garbled_name_is_labelled_by_description_at_its_place() {
    let listing = "[{\"Name\":\"A\",\"Status\":\"Up\",\"DisplayName\":\"first\"},{\"Name\":\"\u{fffd}\u{fffd}\",\"Status\":\"Down\",\"DisplayName\":\"second\"},{\"Name\":\"C\",\"Status\":\"Up\",\"DisplayName\":\"third\"}]";
    let adapters = decode_adapters(listing).unwrap();
    assert_eq!(adapters.len(), 3);
    assert_eq!(adapters[1], adapter("\u{fffd}\u{fffd}", "second (Down)"));
    assert!(!adapters[1].status.contains('\u{fffd}'));
    assert_eq!(adapters[0].status, "A (Up)");
    assert_eq!(adapters[2].status, "C (Up)");
}

#[test]
fn empty_array_is_an_empty_listing() {
    assert_eq!(decode_adapters("[]"), Ok(vec![]));
    assert_eq!(decode_adapters(" [ ] \r\n"), Ok(vec![]));
}

#[test]
fn undecodable_listing_is_reported_with_its_text() {
    for listing in [
        "",
        "  ",
        "not json",
        "{",
        "[{\"Name\":\"A\",\"Status\":\"Up\"}",
        "{}",
        "{\"Name\":\"A\"}",
        "{\"Status\":\"Up\"}",
        "{\"Name\":1,\"Status\":2}",
        "null",
        "7",
        "\"text\"",
        "{\"Name\":\"A\",\"Status\":\"Up\"} trailing",
        "Get-NetAdapter : The term is not recognized",
    ] {
        assert_eq!(
            decode_adapters(listing),
            Err(ConfigError::UnparseableOutput(listing.to_string())),
            "{:?}",
            listing
        );
    }
}

#[test]
fn address_listing_as_a_bare_record() {
    assert_eq!(
        decode_address(r#"{"IPAddress":"192.168.1.10","PrefixLength":24}"#),
        Some(("192.168.1.10".to_string(), 24))
    );
}

#[test]
fn address_listing_as_an_array_gives_its_first_address() {
    assert_eq!(
        decode_address(
            r#"[{"IPAddress":"169.254.7.7","PrefixLength":16},{"IPAddress":"10.0.0.5","PrefixLength":8}]"#
        ),
        Some(("169.254.7.7".to_string(), 16))
    );
    assert_eq!(
        decode_address(
            r#"[{"IPAddress":"169.254.7.7"},{"PrefixLength":16},{"IPAddress":"10.0.0.5","PrefixLength":8}]"#
        ),
        Some(("10.0.0.5".to_string(), 8))
    );
}

#[test]
fn address_listing_keeps_the_prefix_length_as_it_is() {
    assert_eq!(
        decode_address(r#"{"IPAddress":"10.0.0.5","PrefixLength":0}"#),
        Some(("10.0.0.5".to_string(), 0))
    );
    assert_eq!(
        decode_address(r#"{"IPAddress":"10.0.0.5","PrefixLength":256}"#),
        Some(("10.0.0.5".to_string(), 256))
    );
    assert_eq!(
        decode_address(r#"{"IPAddress":"10.0.0.5","PrefixLength":18446744073709551615}"#),
        Some(("10.0.0.5".to_string(), u64::MAX))
    );
}

#[test]
fn address_listing_without_address_or_prefix_gives_nothing() {
    for listing in [
        "",
        "[]",
        "{}",
        "null",
        "garbage",
        r#"{"IPAddress":"10.0.0.5"}"#,
        r#"{"PrefixLength":24}"#,
        r#"{"IPAddress":"10.0.0.5","PrefixLength":"24"}"#,
        r#"{"IPAddress":"10.0.0.5","PrefixLength":-1}"#,
        r#"{"IPAddress":"10.0.0.5","PrefixLength":24.5}"#,
        r#"{"IPAddress":167772165,"PrefixLength":24}"#,
        r#"{"IPAddress":"10.0.0.5","PrefixLength":18446744073709551616}"#,
        r#"[{"IPAddress":"10.0.0.5"},{"PrefixLength":24}]"#,
    ] {
        assert_eq!(decode_address(listing), None, "{:?}", listing);
    }
}

#[test]
fn each_line_that_is_not_blank_is_a_value() {
    assert_eq!(listing_values("8.8.8.8\r\n8.8.4.4\r\n"), vec!["8.8.8.8", "8.8.4.4"]);
    assert_eq!(listing_values("192.168.1.1"), vec!["192.168.1.1"]);
    assert_eq!(
        listing_values("\n  1.1.1.1  \n\n\t\n 9.9.9.9\n   \n149.112.112.112"),
        vec!["1.1.1.1", "9.9.9.9", "149.112.112.112"]
    );
    assert_eq!(listing_values("a b\nc\u{a0}"), vec!["a b", "c"]);
}

#[test]
fn empty_listing_has_no_values() {
    let none: Vec<String> = Vec::new();
    assert_eq!(listing_values(""), none);
    assert_eq!(listing_values("\r\n"), none);
    assert_eq!(listing_values(" \n\t\n\r\n  "), none);
}

#[test]
fn values_of_a_listing_are_the_trimmed_lines() {
    for listing in [
        "",
        "a",
        "a\n",
        "\na",
        "a\r\nb\r\n",
        " a \n\n b\t\n",
        "a\rb\nc",
        "\u{2028}x\n y\u{3000}",
        "x\n\n\ny",
    ] {
        let expected: Vec<String> = listing
            .lines()
            .map(|line| line.trim().to_string())
            .filter(|line| !line.is_empty())
            .collect();
        assert_eq!(listing_values(listing), expected, "{:?}", listing);
    }
}
