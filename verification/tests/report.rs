use uomi_agent::report::{
    balance_report, closing, distinguished, join, summary, token_section, TokenInfo,
    WalletBalance,
};

fn wallet(coin_balance: &str, rate: Option<&str>, is_contract: bool) -> WalletBalance {
    WalletBalance {
        block_number_balance_updated_at: 12345,
        coin_balance: coin_balance.to_string(),
        hash: "0x52908400098527886E0F7030069857D2E4169EE7".to_string(),
        is_contract,
        exchange_rate: rate.map(|r| r.to_string()),
    }
}

fn token(name: &str, symbol: &str, balance: &str, decimals: u8) -> TokenInfo {
    TokenInfo {
        balance: balance.to_string(),
        contract_address: "0xde709f2102306220921060314715629080e2fb77".to_string(),
        decimals,
        name: name.to_string(),
        symbol: symbol.to_string(),
        type_token: "ERC-20".to_string(),
    }
}

#[test]
fn native_balance_and_fiat_lines() {
    let lines = summary(&wallet("1500000000000000000", Some("2.5"), false));
    assert_eq!(
        lines,
        vec![
            "Wallet Balance for 0x52908400098527886E0F7030069857D2E4169EE7:".to_string(),
            "\nNative Balance: 1.500000 UOMI".to_string(),
            "($3.75 USD)".to_string(),
        ]
    );
}

#[test]
fn no_rate_no_fiat_line() {
    let lines = summary(&wallet("1500000000000000000", None, false));
    assert_eq!(lines.len(), 2);
    assert_eq!(lines[1], "\nNative Balance: 1.500000 UOMI");
}

#[test]
fn the_distinguished_token_is_marked_and_no_note_follows() {
    let lines = token_section(&vec![token("Uomi", "UOMI", "1000000", 6)]);
    assert_eq!(
        lines,
        vec!["\nToken Balances:".to_string(), "\u{1F539} UOMI: 1.00 tokens".to_string()]
    );
}

#[test]
fn the_distinguished_token_comes_first_whatever_its_place() {
    let tokens = vec![
        token("Tether", "USDT", "2500000", 6),
        token("Uomi", "uomi", "3000000000000000000", 18),
        token("Wrapped Ether", "WETH", "10000000000000000", 18),
        token("Uomi Two", "Uomi", "150", 2),
    ];
    let lines = token_section(&tokens);
    assert_eq!(
        lines,
        vec![
            "\nToken Balances:".to_string(),
            "\u{1F539} UOMI: 3.00 tokens".to_string(),
            "\u{1F539} UOMI: 1.50 tokens".to_string(),
            "- Tether (USDT): 2.50".to_string(),
            "- Wrapped Ether (WETH): 0.01".to_string(),
        ]
    );
}

#[test]
fn without_the_distinguished_token_a_note_says_so() {
    let lines = token_section(&vec![token("Tether", "USDT", "2500000", 6)]);
    assert_eq!(
        lines,
        vec![
            "\nToken Balances:".to_string(),
            "- Tether (USDT): 2.50".to_string(),
            "\nNote: No UOMI tokens found in this wallet".to_string(),
        ]
    );
}

#[test]
fn an_empty_token_list_still_has_its_section() {
    let lines = token_section(&Vec::new());
    assert_eq!(
        lines,
        vec![
            "\nToken Balances:".to_string(),
            "\nNote: No UOMI tokens found in this wallet".to_string(),
        ]
    );
}

#[test]
fn distinguished_goes_by_the_symbol_in_upper_case() {
    assert!(distinguished(&token("a", "UOMI", "1", 0)));
    assert!(distinguished(&token("a", "uOmI", "1", 0)));
    assert!(!distinguished(&token("UOMI", "UOM", "1", 0)));
    assert!(!distinguished(&token("UOMI", " UOMI", "1", 0)));
}

#[test]
fn closing_lines_name_the_block_and_the_contract() {
    assert_eq!(closing(&wallet("0", None, false)), vec!["\nLast updated at block: 12345"]);
    assert_eq!(
        closing(&wallet("0", None, true)),
        vec!["\nLast updated at block: 12345", "\nNote: This is a smart contract address"]
    );
    let mut w = wallet("0", None, false);
    w.block_number_balance_updated_at = 0;
    assert_eq!(closing(&w), vec!["\nLast updated at block: 0"]);
    w.block_number_balance_updated_at = u64::MAX;
    assert_eq!(closing(&w), vec!["\nLast updated at block: 18446744073709551615"]);
}

#[test]
fn join_puts_a_line_feed_between_lines() {
    assert_eq!(join(&Vec::new()), "");
    assert_eq!(join(&vec!["a".to_string()]), "a");
    assert_eq!(join(&vec!["a".to_string(), "\nb".to_string(), "c".to_string()]), "a\n\nb\nc");
}

#[test]
fn the_whole_report_with_tokens() {
    let report = balance_report(
        &wallet("1500000000000000000", Some("2.5"), true),
        &Some(vec![token("Uomi", "UOMI", "1000000", 6), token("Tether", "USDT", "5", 1)]),
    );
    assert_eq!(
        report,
        "Wallet Balance for 0x52908400098527886E0F7030069857D2E4169EE7:\n\
         \nNative Balance: 1.500000 UOMI\n\
         ($3.75 USD)\n\
         \nToken Balances:\n\
         \u{1F539} UOMI: 1.00 tokens\n\
         - Tether (USDT): 0.50\n\
         \nLast updated at block: 12345\n\
         \nNote: This is a smart contract address"
    );
}

#[test]
fn the_whole_report_without_tokens() {
    let report = balance_report(&wallet("1500000000000000000", None, false), &None);
    assert_eq!(
        report,
        "Wallet Balance for 0x52908400098527886E0F7030069857D2E4169EE7:\n\
         \nNative Balance: 1.500000 UOMI\n\
         \nLast updated at block: 12345"
    );
    assert!(!report.contains("Token Balances"));
}

#[test]
fn a_balance_that_is_no_number_shows_as_zero() {
    let report = balance_report(&wallet("n/a", Some("2.5"), false), &None);
    assert!(report.contains("\nNative Balance: 0.000000 UOMI\n($0.00 USD)\n"));
}
