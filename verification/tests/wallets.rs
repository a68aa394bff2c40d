//! Addresses, identifiers, the wallet book and its table.

use kaspa_addresses::{Address, Prefix, Version};
use kaspa_solo_bot::address::{accepts_address, complete_address};
use kaspa_solo_bot::context::AppContext;
use kaspa_solo_bot::hash::Hash32;
use kaspa_solo_bot::state::{
    add_wallet_to_db, all_entries, audience, init_db, load_query, load_state_from_db,
    new_shared_state, new_utxo_state, put_seen, remove_wallet_from_db, subscribe, take_seen,
    tracked_wallets, unsubscribe, wallet_count,
};
use kaspa_solo_bot::text::{
    characters, decimal_text, join, same_text, signed_decimal_text, starts_with,
};

const DONATION: &str = "kaspa:qz0yqq8z3twwgg7lq2mjzg6w4edqys45w2wslz7tym2tc6s84580vvx9zr44g";
const TEMPLATE: &str = "kaspa:qq2avyvncscg5dtsk8u4uwjhlr3799dhaqj8k9y6q5y9hpwfxjy6u00pep7vg";

fn sorted(mut list: Vec<String>) -> Vec<String> {
    list.sort();
    list
}

#[test]
fn numbers_are_written_in_base_ten() {
    assert_eq!(decimal_text(0), "0");
    assert_eq!(decimal_text(9), "9");
    assert_eq!(decimal_text(10), "10");
    assert_eq!(decimal_text(1234567890), "1234567890");
    assert_eq!(decimal_text(u128::MAX), u128::MAX.to_string());
    assert_eq!(signed_decimal_text(-42), "-42");
    assert_eq!(signed_decimal_text(i64::MIN), i64::MIN.to_string());
    assert_eq!(signed_decimal_text(i64::MAX), i64::MAX.to_string());
    assert_eq!(signed_decimal_text(0), "0");
}

#[test]
fn texts_are_compared_and_joined() {
    assert!(same_text("⏱️ a", "⏱️ a"));
    assert!(!same_text("a", "b"));
    assert!(starts_with("kaspa:q", "kaspa:"));
    assert!(starts_with("kaspa:", "kaspa:"));
    assert!(!starts_with("kaspa", "kaspa:"));
    assert!(!starts_with("Kaspa:q", "kaspa:"));
    assert_eq!(characters("a⛏b"), vec!['a', '⛏', 'b']);
    let none: Vec<String> = Vec::new();
    assert_eq!(join(&none, ", "), "");
    assert_eq!(join(&vec!["a".to_string()], ", "), "a");
    assert_eq!(
        join(&vec!["a".to_string(), "".to_string(), "c".to_string()], ", "),
        "a, , c"
    );
}

#[test]
fn identifiers_are_written_as_hexadecimal_digits() {
    let mut bytes = [0u8; 32];
    bytes[0] = 0xab;
    bytes[31] = 0x05;
    let hash = Hash32 { bytes };
    let text = hash.text();
    assert_eq!(
        text,
        "ab00000000000000000000000000000000000000000000000000000000000005"
    );
    assert_eq!(Hash32::parse(&text), Some(hash));
}

#[test]
fn identifiers_are_read_in_either_case() {
    let upper = "AB00000000000000000000000000000000000000000000000000000000000005";
    let lower = upper.to_lowercase();
    assert_eq!(Hash32::parse(upper), Hash32::parse(&lower));
    assert_eq!(Hash32::parse(upper).unwrap().bytes[0], 0xab);
}

#[test]
fn other_texts_are_no_identifiers() {
    assert_eq!(Hash32::parse(""), None);
    assert_eq!(Hash32::parse(&"0".repeat(62)), None);
    assert_eq!(Hash32::parse(&"0".repeat(63)), None);
    assert_eq!(Hash32::parse(&"0".repeat(65)), None);
    assert_eq!(Hash32::parse(&"g".repeat(64)), None);
}

#[test]
fn digits_behind_an_identifier_are_not_looked_at() {
    let long = format!("{}ff", "1".repeat(64));
    assert_eq!(Hash32::parse(&long), Some(Hash32 { bytes: [0x11; 32] }));
}

#[test]
fn addresses_of_every_kind_are_accepted() {
    assert!(accepts_address(DONATION));
    assert!(accepts_address(TEMPLATE));
    for prefix in [
        Prefix::Mainnet,
        Prefix::Testnet,
        Prefix::Simnet,
        Prefix::Devnet,
    ] {
        for seed in 0..40u8 {
            let payload = [seed.wrapping_mul(37); 32];
            let key = Address::new(prefix, Version::PubKey, &payload).to_string();
            assert!(accepts_address(&key), "{}", key);
            let script = Address::new(prefix, Version::ScriptHash, &payload).to_string();
            assert!(accepts_address(&script), "{}", script);
            let ecdsa = [seed.wrapping_mul(91); 33];
            let ecdsa = Address::new(prefix, Version::PubKeyECDSA, &ecdsa).to_string();
            assert!(accepts_address(&ecdsa), "{}", ecdsa);
        }
    }
}

#[test]
fn other_texts_are_no_addresses() {
    assert!(!accepts_address(""));
    assert!(!accepts_address("kaspa:"));
    assert!(!accepts_address(&DONATION[6..]));
    assert!(!accepts_address(&DONATION.replace("kaspa:", "kaspa1:")));
    // One character of the payload is changed, so the checksum is wrong.
    assert!(!accepts_address(&DONATION.replace("44g", "44q")));
    assert!(!accepts_address(&DONATION.replace("qz0y", "q10y")));
    assert!(!accepts_address("kaspa:qqeq69uvrh"));
}

#[test]
fn a_right_checksum_with_a_wrong_length_is_refused() {
    // Twenty and forty bytes, and a length that belongs to another version.
    assert!(!accepts_address("kaspa:qqrswpc8qurswpc8qurswpc8qurswpc8quzfvl2gal"));
    assert!(!accepts_address(
        "kaspa:pqrswpc8qurswpc8qurswpc8qurswpc8qurswpc8qurswpc8qurswpc8qurswpc8qu7twyfcjf"
    ));
    assert!(!accepts_address(
        "kaspa:qyrswpc8qurswpc8qurswpc8qurswpc8qurswpc8qurswpc8qursw0scvat2e"
    ));
    // No such version.
    assert!(!accepts_address(
        "kaspa:qgrswpc8qurswpc8qurswpc8qurswpc8qurswpc8qurswpc8qurswuc4nj2sz"
    ));
}

#[test]
fn the_network_prefix_may_be_left_out() {
    assert_eq!(complete_address(&DONATION[6..]), DONATION);
    assert_eq!(complete_address(DONATION), DONATION);
    assert_eq!(complete_address(&complete_address("q")), "kaspa:q");
    assert_eq!(complete_address(""), "kaspa:");
}

#[test]
fn the_book_follows_what_chats_track() {
    let mut book = new_shared_state();
    assert_eq!(wallet_count(&book), 0);
    subscribe(&mut book, "kaspa:a", 1);
    subscribe(&mut book, "kaspa:a", 2);
    subscribe(&mut book, "kaspa:b", 1);
    subscribe(&mut book, "kaspa:b", 1);
    assert_eq!(wallet_count(&book), 2);
    assert_eq!(
        sorted(tracked_wallets(&book, 1)),
        vec!["kaspa:a".to_string(), "kaspa:b".to_string()]
    );
    assert_eq!(tracked_wallets(&book, 2), vec!["kaspa:a".to_string()]);
    assert!(tracked_wallets(&book, 3).is_empty());
    let mut users = audience(&book);
    users.sort();
    assert_eq!(users, vec![1, 2]);
    unsubscribe(&mut book, "kaspa:a", 1);
    unsubscribe(&mut book, "kaspa:missing", 1);
    assert_eq!(tracked_wallets(&book, 1), vec!["kaspa:b".to_string()]);
    // The wallet stays in the book when nobody is left that tracks it.
    unsubscribe(&mut book, "kaspa:a", 2);
    assert_eq!(wallet_count(&book), 2);
    assert_eq!(audience(&book), vec![1]);
    let mut entries = all_entries(&book);
    entries.sort();
    assert_eq!(
        entries,
        vec![
            ("kaspa:a".to_string(), Vec::new()),
            ("kaspa:b".to_string(), vec![1])
        ]
    );
}

#[test]
fn a_restart_gives_the_book_back() {
    let rows = vec![
        ("kaspa:a".to_string(), 1),
        ("kaspa:b".to_string(), 1),
        ("kaspa:a".to_string(), -5),
        ("kaspa:a".to_string(), 1),
    ];
    let mut book = new_shared_state();
    load_state_from_db(&mut book, &rows);
    assert_eq!(wallet_count(&book), 2);
    let mut entries = all_entries(&book);
    entries.sort();
    let mut chats = entries[0].1.clone();
    chats.sort();
    assert_eq!(entries[0].0, "kaspa:a");
    assert_eq!(chats, vec![-5, 1]);
    assert_eq!(entries[1], ("kaspa:b".to_string(), vec![1]));
}

#[test]
fn statements_name_the_row() {
    let add = add_wallet_to_db("kaspa:a", 7);
    assert_eq!(
        add.sql,
        "INSERT OR IGNORE INTO user_wallets (wallet, chat_id) VALUES (?1, ?2)"
    );
    assert_eq!((add.wallet.as_str(), add.chat_id), ("kaspa:a", 7));
    let remove = remove_wallet_from_db("kaspa:b", -8);
    assert_eq!(
        remove.sql,
        "DELETE FROM user_wallets WHERE wallet = ?1 AND chat_id = ?2"
    );
    assert_eq!((remove.wallet.as_str(), remove.chat_id), ("kaspa:b", -8));
    assert_eq!(load_query(), "SELECT wallet, chat_id FROM user_wallets");
}

#[test]
fn the_database_has_one_table() {
    let setup = init_db();
    assert_eq!(setup.url, "sqlite://enterprise.db?mode=rwc");
    assert_eq!(setup.max_connections, 5);
    assert_eq!(
        setup.schema.split_whitespace().collect::<Vec<_>>().join(" "),
        "CREATE TABLE IF NOT EXISTS user_wallets ( wallet TEXT NOT NULL, chat_id INTEGER NOT NULL, PRIMARY KEY (wallet, chat_id) )"
    );
}

#[test]
fn the_record_keeps_the_outputs_of_each_wallet() {
    let mut record = new_utxo_state();
    let mut seen = take_seen(&mut record, "kaspa:a");
    assert!(seen.is_empty());
    seen.insert("x:0".to_string());
    put_seen(&mut record, "kaspa:a", seen);
    assert!(take_seen(&mut record, "kaspa:b").is_empty());
    let seen = take_seen(&mut record, "kaspa:a");
    assert!(seen.contains("x:0"));
    assert!(!seen.contains("x:1"));
    // It was taken out.
    assert!(take_seen(&mut record, "kaspa:a").is_empty());
}

#[test]
fn only_addresses_are_watched_and_only_while_monitoring() {
    let mut ctx = AppContext::new(9);
    assert_eq!(ctx.admin_id, 9);
    assert!(ctx.monitoring);
    subscribe(&mut ctx.state, DONATION, 1);
    subscribe(&mut ctx.state, DONATION, 2);
    subscribe(&mut ctx.state, "kaspa:nonsense", 1);
    subscribe(&mut ctx.state, TEMPLATE, 3);
    unsubscribe(&mut ctx.state, TEMPLATE, 3);
    let mut list = ctx.watch_list();
    list.sort();
    assert_eq!(list.len(), 2);
    assert_eq!(list[0], (TEMPLATE.to_string(), Vec::new()));
    let (wallet, mut chats) = list[1].clone();
    chats.sort();
    assert_eq!((wallet.as_str(), chats), (DONATION, vec![1, 2]));
    ctx.monitoring = false;
    assert!(ctx.watch_list().is_empty());
}
