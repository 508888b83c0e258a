use find_xrp_addr::keys::{derive_trial, KeyAlgorithm, Trial};
use find_xrp_addr::matcher::Matcher;
use find_xrp_addr::numbers::{decimal_string, format_with_commas};
use find_xrp_addr::onepassword::{
    found_step, op_item_create_args, op_item_id, op_success_message, vault_output, FoundStep,
    OpReply,
};
use find_xrp_addr::report::{found_line, search_banner, status_line, terminal_width};
use find_xrp_addr::search::SearchConfig;
use find_xrp_addr::validate::{
    parse_algorithm, prevent_confusing_chars, select_cores, validate_chars, validate_search,
    SearchError,
};

fn config(begins: &str, ends: &str, find_len: usize, onep: bool) -> SearchConfig {
    SearchConfig {
        algorithm: KeyAlgorithm::Ed25519,
        begins: begins.to_string(),
        ends: ends.to_string(),
        find_len,
        onep,
        vault: "XRPL".to_string(),
    }
}

fn trial() -> Trial {
    Trial { seed: "sSeed".to_string(), address: "rAbc".to_string() }
}

#[test]
fn commas_edge_cases() {
    assert_eq!(format_with_commas(999), "999");
    assert_eq!(format_with_commas(1000), "1,000");
    assert_eq!(format_with_commas(100000), "100,000");
    assert_eq!(format_with_commas(u64::MAX), "18,446,744,073,709,551,615");
}

#[test]
fn commas_read_back_as_the_number() {
    for n in [0u64, 7, 12, 999, 1000, 45678, 1234567, 987654321012, u64::MAX] {
        let text = format_with_commas(n).replace(',', "");
        assert_eq!(text, n.to_string());
        assert_eq!(text.parse::<u64>().unwrap(), n);
    }
}

#[test]
fn decimal_text() {
    assert_eq!(decimal_string(0), "0");
    assert_eq!(decimal_string(40213), "40213");
}

#[test]
fn confusing_chars_named_in_order() {
    assert!(matches!(prevent_confusing_chars("a0", "", "O"), Err(SearchError::ConfusingChar('O'))));
    assert!(matches!(prevent_confusing_chars("", "l", ""), Err(SearchError::ConfusingChar('l'))));
    assert!(matches!(prevent_confusing_chars("I", "O", "l0"), Err(SearchError::ConfusingChar('I'))));
    assert!(matches!(prevent_confusing_chars("", "", "x0"), Err(SearchError::ConfusingChar('0'))));
}

#[test]
fn alphabet_check() {
    assert!(validate_chars("", "find", false).is_ok());
    assert!(validate_chars("abc", "find", false).is_ok());
    match validate_chars("I", "ends", false) {
        Err(SearchError::InvalidChar { ch, field }) => {
            assert_eq!(ch, 'I');
            assert_eq!(field, "ends");
        }
        _ => panic!("expected an invalid character"),
    }
    // Lowercased, `I` becomes `i`, which the lowercased alphabet holds.
    assert!(validate_chars("I", "ends", true).is_ok());
    match validate_chars("ab_c", "begins", true) {
        Err(SearchError::InvalidChar { ch, field }) => {
            assert_eq!(ch, '_');
            assert_eq!(field, "begins");
        }
        _ => panic!("expected an invalid character"),
    }
}

#[test]
fn search_validation_order() {
    assert!(matches!(validate_search("", "", "", true), Err(SearchError::MissingPattern)));
    assert!(matches!(validate_search("a-b", "", "0", true), Err(SearchError::ConfusingChar('0'))));
    assert!(matches!(validate_search("a-b", "", "", true), Err(SearchError::FindNotAlphanumeric)));
    match validate_search("abc", "x_", "", true) {
        Err(SearchError::InvalidChar { ch, field }) => {
            assert_eq!(ch, '_');
            assert_eq!(field, "begins");
        }
        _ => panic!("expected an invalid character in --begins"),
    }
    assert!(validate_search("abc", "xyz", "99", true).is_ok());
    assert!(validate_search("", "", "Z", false).is_ok());
}

#[test]
fn error_messages() {
    assert_eq!(
        SearchError::MissingPattern.message(),
        "Error: Missing --find, --begins or --ends. At least one is required."
    );
    assert_eq!(
        SearchError::ConfusingChar('l').message(),
        "Error: cannot use confusing character 'l' in --find, --begins or --ends (avoid I, O, l, 0)"
    );
    assert_eq!(SearchError::FindNotAlphanumeric.message(), "Error: --find must be alphanumeric.");
    assert_eq!(
        SearchError::InvalidChar { ch: '_', field: "find".to_string() }.message(),
        "Error: cannot use '_' in --find"
    );
    assert_eq!(
        SearchError::InvalidAlgorithm("rsa".to_string()).message(),
        "Error: invalid algorithm 'rsa'. Use ed25519 or secp256k1."
    );
    assert_eq!(SearchError::RegexBuild.message(), "Failed to compile case-insensitive regex");
}

#[test]
fn algorithm_names() {
    assert_eq!(parse_algorithm("ed25519").unwrap(), KeyAlgorithm::Ed25519);
    assert_eq!(parse_algorithm("ED25519").unwrap(), KeyAlgorithm::Ed25519);
    assert_eq!(parse_algorithm("secp256k1").unwrap(), KeyAlgorithm::Secp256k1);
    assert_eq!(parse_algorithm("SECP").unwrap(), KeyAlgorithm::Secp256k1);
    // Any name holding "ed" selects Ed25519, even one that also holds "secp".
    assert_eq!(parse_algorithm("secped").unwrap(), KeyAlgorithm::Ed25519);
    match parse_algorithm("rsa") {
        Err(SearchError::InvalidAlgorithm(name)) => assert_eq!(name, "rsa"),
        _ => panic!("expected an invalid algorithm"),
    }
}

#[test]
fn cores_selection() {
    assert_eq!(select_cores(0, 8), 8);
    assert_eq!(select_cores(4, 8), 4);
    assert_eq!(select_cores(8, 8), 8);
    assert_eq!(select_cores(12, 8), 8);
}

#[test]
fn matcher_for_find() {
    let any = Matcher::for_find("", true).unwrap();
    assert!(any.matches("rAnything"));
    let exact = Matcher::for_find("abc", false).unwrap();
    assert!(exact.matches("rxxabcxx"));
    assert!(!exact.matches("rxxABCxx"));
    let ci = Matcher::for_find("abc", true).unwrap();
    assert!(ci.matches("rxxABCxx"));
    // The text is escaped: a dot matches only a dot.
    let dotted = Matcher::for_find("a.b", true).unwrap();
    assert!(dotted.matches("rA.B"));
    assert!(!dotted.matches("raxb"));
}

#[test]
fn address_patterns() {
    let m = Matcher::for_find("xyz", true).unwrap();
    let c = config("abc", "99", 3, false);
    assert!(c.address_matches(&m, "rabcXYZ99"));
    assert!(!c.address_matches(&m, "rXabcXYZ99"));
    assert!(!c.address_matches(&m, "rabcXYZ9"));
    assert!(!c.address_matches(&m, "rabcXY99"));
    let no_find = config("", "", 0, false);
    assert!(no_find.address_matches(&m, "rQQQ"));
}

#[test]
fn found_wallets_not_reported_twice() {
    let m = Matcher::for_find("", true).unwrap();
    let with_vault = config("", "9", 0, true);
    assert!(with_vault.trial_wanted(&m, "rA9", false));
    assert!(!with_vault.trial_wanted(&m, "rA9", true));
    let without_vault = config("", "9", 0, false);
    assert!(without_vault.trial_wanted(&m, "rA9", true));
    assert!(!without_vault.trial_wanted(&m, "rA8", false));
}

#[test]
fn known_seed_derives_known_address() {
    let entropy = [1, 2, 3, 4, 5, 6, 7, 8, 9, 10, 11, 12, 13, 14, 15, 16];
    let t = derive_trial(entropy, KeyAlgorithm::Secp256k1).unwrap();
    assert_eq!(t.seed, "sp5fghtJtpUorTwvof1NpDXAzNwf5");
    assert_eq!(t.address, "rU6K7V3Po4snVhBBaU29sesqs2qTQJWDw1");
    let e = derive_trial([0; 16], KeyAlgorithm::Ed25519).unwrap();
    assert!(e.seed.starts_with('s'));
    assert!(e.address.starts_with('r'));
}

#[test]
fn banners() {
    assert_eq!(search_banner("", "", "", 2, 4), None);
    assert_eq!(search_banner("abc", "", "", 2, 4).unwrap(), "Searching for r...abc... with 2/4 processors.");
    assert_eq!(search_banner("", "xy", "", 2, 4).unwrap(), "Searching for rxy... with 2/4 processors.");
    assert_eq!(search_banner("", "", "zz", 2, 4).unwrap(), "Searching for r...zz with 2/4 processors.");
    assert_eq!(search_banner("abc", "xy", "", 1, 16).unwrap(), "Searching for rxy...abc... with 1/16 processors.");
    assert_eq!(search_banner("abc", "", "zz", 2, 4).unwrap(), "Searching for r...abc...zz with 2/4 processors.");
    assert_eq!(search_banner("", "xy", "zz", 2, 4).unwrap(), "Searching for rxy...zz with 2/4 processors.");
    assert_eq!(search_banner("abc", "xy", "zz", 8, 8).unwrap(), "Searching for rxy...abc...zz with 8/8 processors.");
}

#[test]
fn status_lines() {
    let line = status_line(1234, 56, 40);
    assert_eq!(line, format!("\rTested: 1,234 seeds at 56/sec{}", " ".repeat(9)));
    assert_eq!(line.len() - 1, 40 - 2);
    assert_eq!(status_line(1234, 56, 10), "\rTested: 1,234 seeds at 56/sec");
}

#[test]
fn found_lines() {
    assert_eq!(found_line(7, &trial()), "\n  7: Found rAbc ( family seed: sSeed )");
    assert_eq!(found_line(12345, &trial()), "\n12345: Found rAbc ( family seed: sSeed )");
}

#[test]
fn onepassword_command() {
    let args = op_item_create_args(&trial(), "Vault");
    assert_eq!(
        args,
        vec![
            "item", "create", "--title", "rAbc", "--vault", "Vault", "--category", "Crypto Wallet",
            "address[text]=rAbc", "seed[concealed,section=Wallet]=sSeed", "--format", "json",
        ]
    );
    assert_eq!(op_item_id(br#"{"id": "abc123", "title": "rAbc"}"#), "abc123");
    assert_eq!(op_item_id(br#"{"id": 5}"#), "unknown");
    assert_eq!(op_item_id(b"not json"), "unknown");
    assert_eq!(
        op_success_message(1234567, "abc123", "XRPL"),
        "\nFOUND XRP WALLET - scanned 1,234,567 seeds - Added ID abc123 to 1Password vault 'XRPL'!"
    );
}

#[test]
fn terminal_width_default() {
    assert_eq!(terminal_width(Some(132)), 132);
    assert_eq!(terminal_width(None), 80);
}

#[test]
fn found_wallet_printed_without_vault() {
    match found_step(&trial(), 7, false, "XRPL") {
        FoundStep::Print(out) => {
            assert_eq!(out.stdout.unwrap(), "\n  7: Found rAbc ( family seed: sSeed )");
            assert!(out.stderr.is_none());
        }
        FoundStep::Store(_) => panic!("expected a printed line"),
    }
}

#[test]
fn found_wallet_stored_with_vault() {
    match found_step(&trial(), 7, true, "Vault") {
        FoundStep::Store(args) => {
            assert_eq!(args[9], "seed[concealed,section=Wallet]=sSeed");
            assert_eq!(args.len(), 12);
        }
        FoundStep::Print(_) => panic!("expected the op arguments"),
    }
}

#[test]
fn vault_replies() {
    let ok = vault_output(12, "XRPL", &OpReply::Created { stdout: br#"{"id":"x1"}"#.to_vec() });
    assert_eq!(
        ok.stdout.unwrap(),
        "\nFOUND XRP WALLET - scanned 12 seeds - Added ID x1 to 1Password vault 'XRPL'!"
    );
    assert!(ok.stderr.is_none());
    let failed = vault_output(12, "XRPL", &OpReply::Failed { stderr: b"no vault\xff".to_vec() });
    assert!(failed.stdout.is_none());
    assert_eq!(failed.stderr.unwrap(), "Failed to create 1Password item: no vault\u{FFFD}");
    let not_run = vault_output(12, "XRPL", &OpReply::NotRun { error: "not found".to_string() });
    assert_eq!(
        not_run.stderr.unwrap(),
        "Failed to execute `op` command (is 1Password CLI installed and in PATH?): not found"
    );
}

#[test]
fn seed_never_printed_with_vault() {
    let a = Trial { seed: "sFirst".to_string(), address: "rSame".to_string() };
    let b = Trial { seed: "sSecond".to_string(), address: "rSame".to_string() };
    for reply in [
        OpReply::Created { stdout: br#"{"id":"x1"}"#.to_vec() },
        OpReply::Failed { stderr: b"denied".to_vec() },
    ] {
        let out = vault_output(3, "XRPL", &reply);
        let line = out.stdout.clone().or(out.stderr.clone()).unwrap();
        assert!(!line.contains(&a.seed) && !line.contains(&b.seed));
    }
    let args_a = op_item_create_args(&a, "XRPL");
    let args_b = op_item_create_args(&b, "XRPL");
    for i in 0..12 {
        if i != 9 {
            assert_eq!(args_a[i], args_b[i]);
        }
    }
}

#[test]
fn insensitive_find_is_ascii_contains() {
    let regex_matcher = Matcher::for_find("aBc9", true).unwrap();
    let contains = Matcher::Contains("aBc9".to_string());
    for address in ["rABC9xx", "rxxabc9", "rxab c9", "rAbC8", "r"] {
        assert_eq!(regex_matcher.matches(address), contains.matches(address));
    }
}

#[test]
fn ignoring_case_accepts_what_exact_check_accepts() {
    for s in ["", "abc", "rpsh", "ABCDEFGH", "Zz99", "xyzXYZ", "tuvAxyz"] {
        assert!(validate_chars(s, "find", false).is_ok());
        assert!(validate_chars(s, "find", true).is_ok());
    }
}
