//! Settings, the old wallet file, prices and the clock.

use kaspa_solo_bot::clock::utc_stamp;
use kaspa_solo_bot::market::{read_fee_rate, read_prices, Prices};
use kaspa_solo_bot::startup::{
    admin_setting, node_alert, node_setting, plan_migration, public_commands, read_admin,
    store_entries, token_setting, BotError,
};
use kaspa_solo_bot::text::signed_decimal_text;

#[test]
fn the_admin_is_a_number() {
    assert_eq!(read_admin("42"), 42);
    assert_eq!(read_admin("+42"), 42);
    assert_eq!(read_admin("-42"), -42);
    assert_eq!(read_admin("0007"), 7);
    assert_eq!(read_admin("9223372036854775807"), i64::MAX);
    assert_eq!(read_admin("-9223372036854775808"), i64::MIN);
}

#[test]
fn a_setting_that_is_no_number_names_nobody() {
    for text in [
        "",
        "-",
        "+",
        "4 2",
        " 42",
        "4a",
        "--4",
        "９",
        "9223372036854775808",
        "-9223372036854775809",
        "99999999999999999999999999999999999999999999",
    ] {
        assert_eq!(read_admin(text), 0, "{}", text);
        assert_eq!(text.parse::<i64>().unwrap_or(0), 0);
    }
}

#[test]
fn the_admin_is_read_back_from_its_text() {
    for n in [0, 1, -1, 10, 123456789, i64::MIN, i64::MAX] {
        assert_eq!(read_admin(&signed_decimal_text(n)), n);
    }
}

#[test]
fn settings_that_must_be_there() {
    assert_eq!(admin_setting(Some("5")).unwrap(), 5);
    assert_eq!(
        admin_setting(None).unwrap_err().message(),
        "Environment Variable Missing: ADMIN_ID"
    );
    assert_eq!(token_setting(Some("t")).unwrap(), "t");
    assert_eq!(
        token_setting(None).unwrap_err().message(),
        "Environment Variable Missing: BOT_TOKEN"
    );
    assert_eq!(node_setting(None), "ws://127.0.0.1:18110");
    assert_eq!(node_setting(Some("ws://node")), "ws://node");
}

#[test]
fn errors_have_texts() {
    assert_eq!(
        BotError::DatabaseInit("x".to_string()).message(),
        "Database Initialization Failed: x"
    );
    assert_eq!(
        BotError::RpcConnection("y".to_string()).message(),
        "RPC Connection Failed: y"
    );
}

#[test]
fn an_old_file_is_moved_into_the_table() {
    let statements =
        plan_migration("{\"kaspa:a\": [1, 2, 1], \"kaspa:b\": [3], \"kaspa:c\": []}").unwrap();
    let mut rows: Vec<(String, i64)> =
        statements.iter().map(|s| (s.wallet.clone(), s.chat_id)).collect();
    rows.sort();
    assert_eq!(
        rows,
        vec![
            ("kaspa:a".to_string(), 1),
            ("kaspa:a".to_string(), 2),
            ("kaspa:b".to_string(), 3)
        ]
    );
    assert!(statements.iter().all(|s| s.sql.starts_with("INSERT OR IGNORE")));
}

#[test]
fn other_files_are_not_moved() {
    for text in ["", "[]", "{\"a\": 1}", "{\"a\": [1.5]}", "{\"a\": [\"1\"]}"] {
        assert!(plan_migration(text).is_none(), "{}", text);
    }
    assert!(plan_migration("{}").unwrap().is_empty());
}

#[test]
fn entries_are_stored_row_by_row() {
    let entries = vec![("a".to_string(), vec![2, 1]), ("b".to_string(), vec![3])];
    let rows: Vec<(String, i64)> =
        store_entries(&entries).into_iter().map(|s| (s.wallet, s.chat_id)).collect();
    assert_eq!(
        rows,
        vec![("a".to_string(), 2), ("a".to_string(), 1), ("b".to_string(), 3)]
    );
}

#[test]
fn the_menu_has_seven_commands() {
    let menu = public_commands();
    let names: Vec<&str> = menu.iter().map(|e| e.command.as_str()).collect();
    assert_eq!(
        names,
        vec!["start", "add", "remove", "balance", "blocks", "miner", "network"]
    );
    assert_eq!(menu[3].description, "Check live balance & UTXOs");
}

#[test]
fn the_admin_is_told_when_the_node_is_silent() {
    assert_eq!(node_alert(true), None);
    assert_eq!(
        node_alert(false),
        Some(
            "🚨 <b>SYSTEM ALERT:</b> Kaspa Node connection lost! Attempting reconnect...".to_string()
        )
    );
}

#[test]
fn prices_are_read() {
    let body = br#"{"kaspa": {"usd": 0.12, "usd_market_cap": 3000000000}}"#;
    assert_eq!(
        read_prices(body),
        Some(Prices { price: 0.12f64.to_bits(), market_cap: 3e9f64.to_bits() })
    );
    assert_eq!(
        read_prices(b"{}"),
        Some(Prices { price: 0.0f64.to_bits(), market_cap: 0.0f64.to_bits() })
    );
    assert_eq!(read_prices(b"busy"), None);
}

#[test]
fn the_fee_rate_is_read() {
    let body = br#"{"normalBuckets": [{"feerate": 2.5}, {"feerate": 1}]}"#;
    assert_eq!(read_fee_rate(body), Some(2.5f64.to_bits()));
    assert_eq!(read_fee_rate(br#"{"normalBuckets": []}"#), Some(0.0f64.to_bits()));
    assert_eq!(read_fee_rate(b""), None);
}

#[test]
fn moments_are_shown_in_universal_time() {
    assert_eq!(utc_stamp(0), Some("1970-01-01 00:00:00 UTC".to_string()));
    assert_eq!(utc_stamp(1714979289), Some("2024-05-06 07:08:09 UTC".to_string()));
    assert_eq!(utc_stamp(-1), Some("1969-12-31 23:59:59 UTC".to_string()));
    assert_eq!(utc_stamp(i64::MAX), None);
}
