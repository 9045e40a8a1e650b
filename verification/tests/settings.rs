use kalshi_mm::config::{load_config_from_env, lookup, unset_settings, Config, MissingVariable};
use kalshi_mm::env_file::parse_env_file;
use kalshi_mm::text::{begins_with, parse_i64, parse_u32, parse_u64, same_text, trim, Padding};

fn vars(pairs: &[(&str, &str)]) -> Vec<(String, String)> {
    pairs.iter().map(|(k, v)| (k.to_string(), v.to_string())).collect()
}

#[test]
fn defaults() {
    let c = Config::default();
    assert_eq!(c.api_key_id, "");
    assert_eq!(c.private_key_pem, "");
    assert_eq!(c.rest_base_url, "https://api.elections.kalshi.com/trade-api/v2");
    assert_eq!(c.ws_url, "wss://api.elections.kalshi.com/trade-api/ws/v2");
    assert_eq!(c.series_ticker, "KXBTC15M");
    assert_eq!((c.min_pair_profit_cents, c.max_inventory, c.hard_inventory_cap, c.daily_loss_cap_cents), (1, 5, 10, 500));
    assert_eq!((c.rate_limit_writes_per_sec, c.inventory_skew_threshold), (28, 2));
    assert_eq!((c.quote_refresh_interval_ms, c.rest_timeout_ms, c.market_check_interval_ms), (5, 2000, 30000));
    assert_eq!(c.market_rotate_before_close_secs, 90);
}

#[test]
fn environment_overrides_defaults() {
    let c = Config::from_env(&vars(&[
        ("SERIES_TICKER", "KXETH"),
        ("MIN_PAIR_PROFIT", "-3"),
        ("MAX_INVENTORY", "+7"),
        ("HARD_INVENTORY_CAP", "20"),
        ("DAILY_LOSS_CAP", "900"),
        ("RATE_LIMIT_WPS", "9"),
        ("INVENTORY_SKEW_THRESHOLD", "4"),
        ("QUOTE_REFRESH_MS", "11"),
        ("REST_TIMEOUT_MS", "12"),
        ("ROTATE_BEFORE_CLOSE_SECS", "13"),
        ("REST_BASE_URL", "http://a"),
        ("WS_URL", "ws://b"),
    ]));
    assert_eq!(c.series_ticker, "KXETH");
    assert_eq!((c.min_pair_profit_cents, c.max_inventory, c.hard_inventory_cap, c.daily_loss_cap_cents), (-3, 7, 20, 900));
    assert_eq!((c.rate_limit_writes_per_sec, c.inventory_skew_threshold), (9, 4));
    assert_eq!((c.quote_refresh_interval_ms, c.rest_timeout_ms, c.market_rotate_before_close_secs), (11, 12, 13));
    assert_eq!((c.rest_base_url.as_str(), c.ws_url.as_str()), ("http://a", "ws://b"));
}

#[test]
fn unreadable_values_keep_defaults() {
    let c = Config::from_env(&vars(&[
        ("MAX_INVENTORY", "seven"),
        ("HARD_INVENTORY_CAP", " 20"),
        ("DAILY_LOSS_CAP", "9223372036854775808"),
        ("RATE_LIMIT_WPS", "-1"),
        ("QUOTE_REFRESH_MS", ""),
    ]));
    assert_eq!((c.max_inventory, c.hard_inventory_cap, c.daily_loss_cap_cents), (5, 10, 500));
    assert_eq!((c.rate_limit_writes_per_sec, c.quote_refresh_interval_ms), (28, 5));
}

#[test]
fn numbers_read_as_std_reads_them() {
    for s in [
        "", "+", "-", "0", "-0", "+0", "007", "12", "-12", "+12", "--1", "+-1", "1 ", " 1", "1_0", "1.0", "0x1", "\u{661}",
        "9223372036854775807", "9223372036854775808", "-9223372036854775808", "-9223372036854775809",
        "18446744073709551615", "18446744073709551616", "4294967295", "4294967296",
        "340282366920938463463374607431768211456", "99999999999999999999999999999999999999999x",
    ] {
        assert_eq!(parse_i64(s), s.parse::<i64>().ok(), "{:?}", s);
        assert_eq!(parse_u64(s), s.parse::<u64>().ok(), "{:?}", s);
        assert_eq!(parse_u32(s), s.parse::<u32>().ok(), "{:?}", s);
    }
}

#[test]
fn white_space_is_what_std_says() {
    for n in 0..0x11_0000u32 {
        if let Some(c) = char::from_u32(n) {
            let s = c.to_string();
            assert_eq!(trim(&s, Padding::WhiteSpace).is_empty(), c.is_whitespace(), "{:x}", n);
        }
    }
}

#[test]
fn trimming() {
    assert_eq!(trim(" \t a b\u{3000}\n", Padding::WhiteSpace), "a b");
    assert_eq!(trim("", Padding::WhiteSpace), "");
    assert_eq!(trim("   ", Padding::WhiteSpace), "");
    assert_eq!(trim("\"\"q\"x\"", Padding::DoubleQuote), "q\"x");
    assert_eq!(trim("'q'", Padding::DoubleQuote), "'q'");
}

#[test]
fn comparing() {
    assert!(same_text("", ""));
    assert!(same_text("h\u{e9}", "h\u{e9}"));
    assert!(!same_text("he", "h\u{e9}"));
    assert!(!same_text("he", "hel"));
    assert!(!same_text("hel", "he"));
    assert!(begins_with("WS disconnect: x", "WS disconnect"));
    assert!(begins_with("x", ""));
    assert!(!begins_with("WS dis", "WS disconnect"));
    assert!(!begins_with("ws disconnect", "WS disconnect"));
}

#[test]
fn file_of_settings() {
    let file = "# a comment\n\n  KALSHI_KEY_ID = \"abc\" \r\nEMPTY=\nURL=http://x?a=b\nnothing here\n  # more\n=v\nLAST=\"\"1\"\"";
    assert_eq!(
        parse_env_file(file),
        vars(&[("KALSHI_KEY_ID", "abc"), ("EMPTY", ""), ("URL", "http://x?a=b"), ("", "v"), ("LAST", "1")])
    );
    assert_eq!(parse_env_file(""), vec![]);
    assert_eq!(parse_env_file("A=1\n"), vars(&[("A", "1")]));
}

#[test]
fn environment_wins_over_file() {
    let env = vars(&[("A", "env")]);
    let file = vars(&[("A", "file"), ("B", "first"), ("C", "c"), ("B", "second")]);
    assert_eq!(unset_settings(&env, &file), vars(&[("B", "first"), ("C", "c")]));
}

#[test]
fn lookup_takes_the_first() {
    let env = vars(&[("A", "1"), ("A", "2")]);
    assert_eq!(lookup(&env, "A").map(|s| s.as_str()), Some("1"));
    assert_eq!(lookup(&env, "a"), None);
}

#[test]
fn key_has_to_be_set() {
    assert_eq!(load_config_from_env(&vars(&[])).unwrap_err(), MissingVariable::KeyId);
    assert_eq!(load_config_from_env(&vars(&[("KALSHI_PRIVATE_KEY_PATH", "p")])).unwrap_err(), MissingVariable::KeyId);
    assert_eq!(load_config_from_env(&vars(&[("KALSHI_KEY_ID", "k")])).unwrap_err(), MissingVariable::PrivateKeyPath);
    let (config, path) =
        load_config_from_env(&vars(&[("KALSHI_KEY_ID", "k"), ("KALSHI_PRIVATE_KEY_PATH", "p"), ("MAX_INVENTORY", "8")])).unwrap();
    assert_eq!(config.api_key_id, "k");
    assert_eq!(config.max_inventory, 8);
    assert_eq!(path, "p");
}
