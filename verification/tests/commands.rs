//! Commands, buttons and reports.

use kaspa_addresses::{Address, Prefix, Version};
use kaspa_solo_bot::commands::{
    handle_callback, handle_command, reachable_wallets, route_callback, Command, Effect, Query,
};
use kaspa_solo_bot::context::AppContext;
use kaspa_solo_bot::hash::Hash32;
use kaspa_solo_bot::monitor::Utxo;
use kaspa_solo_bot::reply::{Markup, Reply};
use kaspa_solo_bot::reports::{
    balance_line, balance_reply, blocks_line, blocks_reply, broadcast_reply, count_mined,
    count_reached, dag_reply, fees_reply, logs_reply, market_reply, mined_amounts, miner_line, miner_reply,
    network_reply, price_reply, stats_reply, supply_reply, sys_reply, DagFacts, MinerEstimate, MinerLine, NetworkFacts, ServerFacts,
    SupplyFacts, TemplateFacts, WalletBalance, WalletBlocks,
};
use kaspa_solo_bot::state::{all_entries, load_state_from_db, subscribe, tracked_wallets};

const NOW: &str = "2024-05-06 07:08:09 UTC";
const DONATION: &str = "kaspa:qz0yqq8z3twwgg7lq2mjzg6w4edqys45w2wslz7tym2tc6s84580vvx9zr44g";

fn wallet(seed: u8) -> String {
    Address::new(Prefix::Mainnet, Version::PubKey, &[seed; 32]).to_string()
}

fn sent(effect: &Effect) -> &Reply {
    match effect {
        Effect::Send(reply) => reply,
        _ => panic!("not a message"),
    }
}

fn run(ctx: &mut AppContext, cmd: Command, user: i64) -> Vec<Effect> {
    handle_command(ctx, &cmd, 100, user, NOW, Some(5))
}

#[test]
fn start_clears_the_keyboard_and_shows_the_menu() {
    let mut ctx = AppContext::new(1);
    let effects = run(&mut ctx, Command::Start, 2);
    assert_eq!(effects.len(), 2);
    let first = sent(&effects[0]);
    assert_eq!(first.text, "🔄 Syncing Enterprise UI...");
    assert_eq!(first.markup, Markup::RemoveKeyboard);
    let help = sent(&effects[1]);
    assert!(help.text.starts_with("🤖 <b>Kaspa Enterprise Command Center</b>\n"));
    assert!(help.text.ends_with("<code>/restart</code> - Reboot Process"));
    assert_eq!(help.markup, Markup::MainMenu);
    assert_eq!(help.edit, None);
}

#[test]
fn a_wallet_is_added_with_or_without_the_prefix() {
    let mut ctx = AppContext::new(1);
    let effects = run(&mut ctx, Command::Add(DONATION[6..].to_string()), 2);
    assert_eq!(effects.len(), 2);
    match &effects[0] {
        Effect::Store(s) => {
            assert_eq!((s.wallet.as_str(), s.chat_id), (DONATION, 100));
            assert!(s.sql.starts_with("INSERT OR IGNORE"));
        }
        _ => panic!("nothing is stored"),
    }
    assert_eq!(
        *sent(&effects[1]),
        Reply {
            text: format!("✅ <b>Tracking Enabled:</b>\n<code>{}</code>", DONATION),
            edit: None,
            markup: Markup::Plain
        }
    );
    assert_eq!(tracked_wallets(&ctx.state, 100), vec![DONATION.to_string()]);
    assert!(tracked_wallets(&ctx.state, 2).is_empty());
}

#[test]
fn a_text_that_is_no_address_is_refused() {
    let mut ctx = AppContext::new(1);
    let effects = run(&mut ctx, Command::Add("kaspa:nonsense".to_string()), 1);
    assert_eq!(effects.len(), 1);
    assert_eq!(
        sent(&effects[0]).text,
        "❌ <b>Invalid Format!</b>\nPlease provide a valid Kaspa address."
    );
    assert!(tracked_wallets(&ctx.state, 100).is_empty());
}

#[test]
fn standard_users_track_five_wallets() {
    let mut ctx = AppContext::new(1);
    for seed in 0..5 {
        let effects = run(&mut ctx, Command::Add(wallet(seed)), 2);
        assert_eq!(effects.len(), 2);
    }
    let refused = run(&mut ctx, Command::Add(wallet(5)), 2);
    assert_eq!(refused.len(), 1);
    assert_eq!(
        sent(&refused[0]).text,
        "⚠️ <b>Security Limit Reached!</b>\nStandard users can only track up to 5 wallets."
    );
    assert_eq!(tracked_wallets(&ctx.state, 100).len(), 5);
    // The limit is on the chat, also for a wallet that it tracks already.
    assert_eq!(run(&mut ctx, Command::Add(wallet(0)), 2).len(), 1);
    // The admin is not bound by it.
    assert_eq!(run(&mut ctx, Command::Add(wallet(5)), 1).len(), 2);
    assert_eq!(tracked_wallets(&ctx.state, 100).len(), 6);
    // An address that is wrong is named as such, before the limit.
    let wrong = run(&mut ctx, Command::Add("x".to_string()), 2);
    assert!(sent(&wrong[0]).text.starts_with("❌"));
}

#[test]
fn removing_leaves_other_chats_alone() {
    let mut ctx = AppContext::new(1);
    subscribe(&mut ctx.state, DONATION, 100);
    subscribe(&mut ctx.state, DONATION, 200);
    let effects = run(&mut ctx, Command::Remove(DONATION[6..].to_string()), 2);
    match &effects[0] {
        Effect::Store(s) => {
            assert_eq!((s.wallet.as_str(), s.chat_id), (DONATION, 100));
            assert!(s.sql.starts_with("DELETE FROM"));
        }
        _ => panic!("nothing is stored"),
    }
    assert_eq!(sent(&effects[1]).text, "🗑️ <b>Wallet Removed.</b>");
    assert!(tracked_wallets(&ctx.state, 100).is_empty());
    assert_eq!(tracked_wallets(&ctx.state, 200), vec![DONATION.to_string()]);
    // What is not tracked can be removed too.
    assert_eq!(run(&mut ctx, Command::Remove("kaspa:x".to_string()), 2).len(), 2);
}

#[test]
fn the_list_names_the_wallets() {
    let mut ctx = AppContext::new(1);
    let empty = run(&mut ctx, Command::List, 2);
    assert_eq!(
        *sent(&empty[0]),
        Reply {
            text: format!("No wallets tracked.\n\n⏱️ <code>{}</code>", NOW),
            edit: Some(5),
            markup: Markup::Refresh("refresh_list".to_string())
        }
    );
    subscribe(&mut ctx.state, DONATION, 100);
    let one = run(&mut ctx, Command::List, 2);
    assert_eq!(
        sent(&one[0]).text,
        format!("📁 <b>Portfolio:</b>\n<code>{}</code>\n\n⏱️ <code>{}</code>", DONATION, NOW)
    );
    subscribe(&mut ctx.state, "kaspa:other", 100);
    let two = run(&mut ctx, Command::List, 2);
    let a = format!("<code>{}\nkaspa:other</code>", DONATION);
    let b = format!("<code>kaspa:other\n{}</code>", DONATION);
    let text = &sent(&two[0]).text;
    assert!(text.contains(&a) || text.contains(&b));
}

#[test]
fn only_addresses_are_asked_for() {
    let list = vec!["kaspa:x".to_string(), DONATION.to_string(), wallet(3)];
    assert_eq!(reachable_wallets(&list), vec![DONATION.to_string(), wallet(3)]);
    let mut ctx = AppContext::new(1);
    subscribe(&mut ctx.state, DONATION, 100);
    subscribe(&mut ctx.state, "kaspa:x", 100);
    for cmd in [Command::Balance, Command::Blocks, Command::Miner] {
        let effects = run(&mut ctx, cmd, 2);
        assert_eq!(effects.len(), 1);
        match &effects[0] {
            Effect::Fetch(Query::Balance(w))
            | Effect::Fetch(Query::Blocks(w))
            | Effect::Fetch(Query::Miner(w)) => assert_eq!(*w, vec![DONATION.to_string()]),
            _ => panic!("nothing is asked for"),
        }
    }
}

#[test]
fn without_wallets_there_are_no_blocks_and_no_estimate() {
    let mut ctx = AppContext::new(1);
    let blocks = run(&mut ctx, Command::Blocks, 2);
    assert_eq!(
        *sent(&blocks[0]),
        Reply {
            text: "⚠️ <b>No wallets tracked.</b>".to_string(),
            edit: Some(5),
            markup: Markup::Plain
        }
    );
    assert!(run(&mut ctx, Command::Miner, 2).is_empty());
    match &run(&mut ctx, Command::Balance, 2)[0] {
        Effect::Fetch(Query::Balance(w)) => assert!(w.is_empty()),
        _ => panic!("no balance is asked for"),
    }
}

#[test]
fn admin_commands_do_nothing_for_others() {
    let mut ctx = AppContext::new(1);
    subscribe(&mut ctx.state, DONATION, 100);
    for cmd in [
        Command::Stats,
        Command::Sys,
        Command::Pause,
        Command::Resume,
        Command::Restart,
        Command::Broadcast("hello".to_string()),
        Command::Logs,
    ] {
        assert!(run(&mut ctx, cmd, 2).is_empty());
        assert!(ctx.monitoring);
    }
}

#[test]
fn the_admin_pauses_and_resumes() {
    let mut ctx = AppContext::new(1);
    let pause = run(&mut ctx, Command::Pause, 1);
    assert_eq!(sent(&pause[0]).text, "⏸️ <b>Monitoring Paused.</b>");
    assert!(!ctx.monitoring);
    match &run(&mut ctx, Command::Sys, 1)[0] {
        Effect::Fetch(Query::Sys(monitoring)) => assert!(!monitoring),
        _ => panic!("no diagnostics"),
    }
    let resume = run(&mut ctx, Command::Resume, 1);
    assert_eq!(sent(&resume[0]).text, "▶️ <b>Monitoring Active.</b>");
    assert!(ctx.monitoring);
}

#[test]
fn the_admin_restarts() {
    let mut ctx = AppContext::new(1);
    let effects = run(&mut ctx, Command::Restart, 1);
    assert_eq!(sent(&effects[0]).text, "🔄 <b>Restarting safely...</b>");
    assert!(matches!(effects[1], Effect::Exit));
}

#[test]
fn a_broadcast_goes_to_every_user_once() {
    let mut ctx = AppContext::new(1);
    subscribe(&mut ctx.state, "kaspa:a", 7);
    subscribe(&mut ctx.state, "kaspa:b", 7);
    subscribe(&mut ctx.state, "kaspa:b", 8);
    match &run(&mut ctx, Command::Broadcast("hi".to_string()), 1)[0] {
        Effect::Fetch(Query::Broadcast { recipients, text }) => {
            let mut recipients = recipients.clone();
            recipients.sort();
            assert_eq!(recipients, vec![7, 8]);
            assert_eq!(text, "📢 <b>Admin Broadcast:</b>\n\nhi");
        }
        _ => panic!("no broadcast"),
    }
    match &run(&mut ctx, Command::Stats, 1)[0] {
        Effect::Fetch(Query::Stats { users, wallets }) => assert_eq!((*users, *wallets), (2, 2)),
        _ => panic!("no figures"),
    }
    assert_eq!(count_reached(&vec![true, false, true]), 2);
    assert_eq!(count_reached(&Vec::new()), 0);
    assert_eq!(broadcast_reply(2).text, "✅ Broadcast sent to 2 users.");
}

#[test]
fn the_other_commands_ask_the_node_or_a_service() {
    let mut ctx = AppContext::new(1);
    match &run(&mut ctx, Command::Network, 2)[0] {
        Effect::Fetch(Query::Network(address)) => assert_eq!(
            address,
            "kaspa:qq2avyvncscg5dtsk8u4uwjhlr3799dhaqj8k9y6q5y9hpwfxjy6u00pep7vg"
        ),
        _ => panic!("nothing is asked for"),
    }
    assert!(matches!(run(&mut ctx, Command::Dag, 2)[0], Effect::Fetch(Query::Dag)));
    assert!(matches!(run(&mut ctx, Command::Price, 2)[0], Effect::Fetch(Query::Price)));
    assert!(matches!(run(&mut ctx, Command::Market, 2)[0], Effect::Fetch(Query::Market)));
    assert!(matches!(run(&mut ctx, Command::Supply, 2)[0], Effect::Fetch(Query::Supply)));
    assert!(matches!(run(&mut ctx, Command::Fees, 2)[0], Effect::Fetch(Query::Fees)));
    assert!(matches!(run(&mut ctx, Command::Logs, 1)[0], Effect::Fetch(Query::Logs)));
    let donate = run(&mut ctx, Command::Donate, 2);
    assert!(sent(&donate[0]).text.ends_with(&format!("<code>{}</code>", DONATION)));
}

#[test]
fn every_button_has_its_command() {
    for (name, cmd) in [
        ("balance", Command::Balance),
        ("miner", Command::Miner),
        ("blocks", Command::Blocks),
        ("list", Command::List),
        ("price", Command::Price),
        ("market", Command::Market),
        ("network", Command::Network),
        ("fees", Command::Fees),
        ("supply", Command::Supply),
        ("dag", Command::Dag),
        ("stats", Command::Stats),
        ("sys", Command::Sys),
    ] {
        assert_eq!(route_callback(&format!("cmd_{}", name)), (Some(cmd.clone()), false));
        assert_eq!(route_callback(&format!("refresh_{}", name)), (Some(cmd), true));
    }
    assert_eq!(route_callback("cmd_donate"), (Some(Command::Donate), false));
    assert_eq!(route_callback("refresh_donate"), (None, false));
    assert_eq!(route_callback("cmd_restart"), (None, false));
    assert_eq!(route_callback(""), (None, false));
}

#[test]
fn a_button_is_answered() {
    let plan = handle_callback(false, Some("refresh_price"), Some(42));
    assert_eq!(plan.command, Some(Command::Price));
    assert_eq!(plan.edit, Some(42));
    assert_eq!(plan.answer, None);
    let plan = handle_callback(false, Some("cmd_price"), Some(42));
    assert_eq!((plan.command, plan.edit), (Some(Command::Price), None));
    let plan = handle_callback(true, Some("cmd_price"), Some(42));
    assert_eq!(
        plan.answer,
        Some("⚠️ Processing... Please wait a moment!".to_string())
    );
    assert_eq!((plan.command, plan.edit), (None, None));
    assert_eq!(handle_callback(false, None, Some(42)).command, None);
    assert_eq!(handle_callback(false, Some("cmd_price"), None).command, None);
    assert_eq!(handle_callback(false, Some("nothing"), Some(1)).command, None);
}

#[test]
fn the_balance_report_has_a_paragraph_for_each_wallet() {
    let lines = vec![
        WalletBalance { short: "kaspa:a..b".to_string(), balance: "1.50000000".to_string(), utxos: 3 },
        WalletBalance { short: "kaspa:c..d".to_string(), balance: "0.00000000".to_string(), utxos: 0 },
    ];
    let reply = balance_reply(&lines, "1.5", NOW, None);
    assert_eq!(
        reply.text,
        "💰 <b>Wallet Analysis & Live Balance</b>\n⏱️ <code>2024-05-06 07:08:09 UTC</code>\n━━━━━━━━━━━━━━━━━━\n💳 <code>kaspa:a..b</code>\n├ <b>Live Balance:</b> 1.50000000 KAS\n└ <b>UTXOs:</b> 3\n\n💳 <code>kaspa:c..d</code>\n├ <b>Live Balance:</b> 0.00000000 KAS\n└ <b>UTXOs:</b> 0\n\n━━━━━━━━━━━━━━━━━━\n💎 <b>Total Holdings:</b> <code>1.5 KAS</code>"
    );
    assert_eq!(reply.markup, Markup::Refresh("refresh_balance".to_string()));
}

#[test]
fn the_block_report_adds_the_blocks() {
    let lines = vec![
        WalletBlocks { short: "a".to_string(), blocks: 2, value: "10.00000000".to_string() },
        WalletBlocks { short: "b".to_string(), blocks: 40, value: "1.00000000".to_string() },
    ];
    let reply = blocks_reply(&lines, "11.00000000", NOW, Some(1));
    assert_eq!(
        reply.text,
        "🧱 <b>Mined Blocks Tracker (Unspent)</b>\n⏱️ <code>2024-05-06 07:08:09 UTC</code>\n━━━━━━━━━━━━━━━━━━\n💳 <code>a</code>\n├ <b>Blocks Mined:</b> 2\n└ <b>Rewards Value:</b> 10.00000000 KAS\n\n💳 <code>b</code>\n├ <b>Blocks Mined:</b> 40\n└ <b>Rewards Value:</b> 1.00000000 KAS\n\n━━━━━━━━━━━━━━━━━━\n🏆 <b>Total Blocks:</b> 42\n💎 <b>Total Mined Value:</b> 11.00000000 KAS\n\n<i>*Note: Nodes only index unspent block rewards.</i>"
    );
    assert_eq!(reply.edit, Some(1));
}

fn utxo(score: u64, amount: u64, is_coinbase: bool) -> Utxo {
    Utxo { tx: Hash32 { bytes: [1; 32] }, index: 0, amount, block_daa_score: score, is_coinbase }
}

#[test]
fn mined_outputs_are_counted_by_age() {
    let now = 1_000_000u64;
    let utxos = vec![
        utxo(now, 1, true),
        utxo(now - 3600, 2, true),
        utxo(now - 3601, 3, true),
        utxo(now - 86400, 4, true),
        utxo(now - 86401, 5, true),
        utxo(now - 604800, 6, true),
        utxo(now - 604801, 7, true),
        utxo(now, 8, false),
        utxo(now + 50, 9, true),
    ];
    let counts = count_mined(&utxos, now);
    assert_eq!((counts.blocks_1h, counts.blocks_24h, counts.blocks_7d), (3, 5, 7));
    assert_eq!(mined_amounts(&utxos), vec![1, 2, 3, 4, 5, 6, 7, 9]);
    let text = |t: &str| t.to_string();
    let line = miner_line(text("a"), text("x"), text("y"), text("z"), &utxos, now);
    assert_eq!((line.blocks_1h, line.blocks_24h, line.blocks_7d), (3, 5, 7));
    assert_eq!((line.rate_1h, line.rate_24h, line.rate_7d), (text("x"), text("y"), text("z")));
    assert_eq!(balance_line(text("a"), text("1"), &utxos).utxos, 9);
    assert_eq!(blocks_line(text("a"), text("1"), &utxos).blocks, 8);
    let none = count_mined(&Vec::new(), now);
    assert_eq!((none.blocks_1h, none.blocks_24h, none.blocks_7d), (0, 0, 0));
}

#[test]
fn the_miner_report_needs_an_estimate() {
    let head = "⛏️ <b>Solo-Miner Hashrate Estimation</b>\n⏱️ <code>2024-05-06 07:08:09 UTC</code>\n━━━━━━━━━━━━━━━━━━\n";
    assert_eq!(miner_reply(&None, NOW, None).text, head);
    let estimate = MinerEstimate {
        lines: vec![MinerLine {
            short: "a".to_string(),
            rate_1h: "1 TH/s".to_string(),
            blocks_1h: 1,
            rate_24h: "2 TH/s".to_string(),
            blocks_24h: 20,
            rate_7d: "3 TH/s".to_string(),
            blocks_7d: 300,
        }],
        network_rate: "1 EH/s".to_string(),
    };
    assert_eq!(
        miner_reply(&Some(estimate), NOW, None).text,
        format!("{}💳 <code>a</code>\n├ <b>1 Hour:</b> 1 TH/s (1 Blks)\n├ <b>24 Hours:</b> 2 TH/s (20 Blks)\n└ <b>7 Days:</b> 3 TH/s (300 Blks)\n\n━━━━━━━━━━━━━━━━━━\n🌐 <b>Network Hashrate:</b> 1 EH/s\n<i>*Note: Based on unspent node rewards.</i>", head)
    );
}

#[test]
fn the_network_report_leaves_out_what_is_not_known() {
    let nothing = NetworkFacts {
        server: None,
        peers: None,
        synced: None,
        dag: None,
        hashrate: None,
        supply: None,
        template: None,
    };
    assert_eq!(
        network_reply(&nothing, NOW, None).text,
        "🛠️ <b>Node Health & Network</b>\n📊 <b>GHOSTDAG Consensus</b>\n⛏️ <b>Mining Readiness</b>\n└ <b>Status:</b> Not Ready ❌\n\n⏱️ <code>2024-05-06 07:08:09 UTC</code>"
    );
    let everything = NetworkFacts {
        server: Some(ServerFacts {
            version: "0.15.0".to_string(),
            network: "mainnet".to_string(),
            has_utxo_index: false,
        }),
        peers: Some(8),
        synced: Some(true),
        dag: Some(DagFacts {
            block_count: "1,000".to_string(),
            daa_score: 77,
            difficulty: "5 T".to_string(),
        }),
        hashrate: Some("1 EH/s".to_string()),
        supply: Some(SupplyFacts { circulating: "10".to_string(), minted: "90.00".to_string() }),
        template: Some(TemplateFacts { transactions: 3, bits: 453325233 }),
    };
    assert_eq!(
        network_reply(&everything, NOW, None).text,
        "🛠️ <b>Node Health & Network</b>\n├ <b>Version:</b> 0.15.0 | <b>Net:</b> mainnet\n├ <b>UTXO Index:</b> Disabled ❌\n├ <b>Connected Peers:</b> 8\n└ <b>Sync Status:</b> 100% Synced ✅\n\n📊 <b>GHOSTDAG Consensus</b>\n├ <b>Total Blocks:</b> 1,000\n├ <b>DAA Score:</b> 77\n├ <b>Difficulty:</b> 5 T\n├ <b>Hashrate:</b> 1 EH/s\n├ <b>Circulating:</b> 10 KAS\n└ <b>Minted:</b> 90.00%\n\n⛏️ <b>Mining Readiness</b>\n├ <b>Status:</b> Solo Ready ✅\n├ <b>Mempool TXs:</b> 3\n└ <b>Next Block Bits:</b> 453325233\n\n⏱️ <code>2024-05-06 07:08:09 UTC</code>"
    );
}

#[test]
fn short_reports_have_their_texts_and_buttons() {
    let dag = dag_reply("10", "11", NOW, None);
    assert_eq!(dag.text, "🧱 <b>BlockDAG Details:</b>\n🧱 <b>Blocks:</b> <code>10</code>\n📑 <b>Headers:</b> <code>11</code>\n\n⏱️ <code>2024-05-06 07:08:09 UTC</code>");
    assert_eq!(dag.markup, Markup::Refresh("refresh_dag".to_string()));
    let price = price_reply(Some("0.1234"), NOW, None);
    assert_eq!(price.text, "💵 <b>Price:</b> <code>$0.1234 USD</code> (CoinGecko)\n\n⏱️ <code>2024-05-06 07:08:09 UTC</code>");
    assert_eq!(price.markup, Markup::Refresh("refresh_price".to_string()));
    assert_eq!(price_reply(None, NOW, None).text, "⚠️ <b>Price API Syncing...</b>\n\n⏱️ <code>2024-05-06 07:08:09 UTC</code>");
    let market = market_reply(Some("3,000"), NOW, None);
    assert_eq!(market.text, "📈 <b>Market Cap:</b> <code>$3,000 USD</code> (CoinGecko)\n\n⏱️ <code>2024-05-06 07:08:09 UTC</code>");
    assert_eq!(market.markup, Markup::Refresh("refresh_market".to_string()));
    assert_eq!(market_reply(None, NOW, None).text, "⚠️ <b>Market Cap API Syncing...</b>\n\n⏱️ <code>2024-05-06 07:08:09 UTC</code>");
    let supply = supply_reply("1", "2", "50.00", NOW, None);
    assert_eq!(supply.text, "🪙 <b>Coin Supply:</b>\n├ <b>Circulating:</b> <code>1 KAS</code>\n├ <b>Max Supply:</b> <code>2 KAS</code>\n└ <b>Minted:</b> <code>50.00%</code>\n\n⏱️ <code>2024-05-06 07:08:09 UTC</code>");
    assert_eq!(supply.markup, Markup::Refresh("refresh_supply".to_string()));
    let fees = fees_reply("1.00", NOW, Some(3));
    assert_eq!(fees.text, "⛽ <b>Fee Estimate:</b> <code>1.00 sompi/gram</code>\n\n⏱️ <code>2024-05-06 07:08:09 UTC</code>");
    assert_eq!((fees.edit, fees.markup), (Some(3), Markup::Refresh("refresh_fees".to_string())));
}

#[test]
fn admin_reports_have_their_texts() {
    let stats = stats_reply(3, 4, Some(12), NOW, None);
    assert_eq!(stats.text, "📊 <b>Enterprise Analytics</b>\n━━━━━━━━━━━━━━━━━━\n👥 <b>Active Users:</b> 3\n💼 <b>Tracked Wallets:</b> 4\n🌐 <b>Node Ping:</b> Online 🟢 (12ms)\n\n⏱️ <code>2024-05-06 07:08:09 UTC</code>");
    assert_eq!(stats.markup, Markup::Refresh("refresh_stats".to_string()));
    assert!(stats_reply(3, 4, None, NOW, None).text.contains("Offline 🔴\n\n"));
    let mib = 1024 * 1024;
    let sys = sys_reply(5 * mib + 1, 16 * mib, true, NOW, None);
    assert_eq!(sys.text, "⚙️ <b>Server Node Diagnostics:</b>\n🧠 <b>RAM Used:</b> <code>5 MB</code>\n🧠 <b>RAM Total:</b> <code>16 MB</code>\n👀 <b>Monitor:</b> <code>true</code>\n\n⏱️ <code>2024-05-06 07:08:09 UTC</code>");
    assert_eq!(sys.markup, Markup::Refresh("refresh_sys".to_string()));
    assert!(sys_reply(0, 0, false, NOW, None).text.contains("<code>false</code>"));
}

#[test]
fn the_log_is_shown_in_reading_order() {
    let backward = vec![Some("third".to_string()), None, Some("first".to_string())];
    let reply = logs_reply(&backward);
    assert_eq!(reply.text, "📜 <b>System Logs (Tail):</b>\n<pre>first\nthird</pre>");
    assert_eq!(reply.markup, Markup::Plain);
    let many: Vec<Option<String>> = (0..40).map(|i| Some(i.to_string())).collect();
    let text = logs_reply(&many).text;
    assert!(text.starts_with("📜 <b>System Logs (Tail):</b>\n<pre>24\n23\n"));
    assert!(text.ends_with("\n1\n0</pre>"));
    assert_eq!(logs_reply(&Vec::new()).text, "📜 <b>System Logs (Tail):</b>\n<pre></pre>");
}

#[test]
fn a_granted_wallet_is_watched_until_it_is_removed() {
    let mut ctx = AppContext::new(1);
    run(&mut ctx, Command::Add(DONATION.to_string()), 2);
    assert_eq!(ctx.watch_list(), vec![(DONATION.to_string(), vec![100])]);
    run(&mut ctx, Command::Remove(DONATION.to_string()), 2);
    assert!(tracked_wallets(&ctx.state, 100).is_empty());
    assert!(ctx.watch_list().iter().all(|(_, chats)| chats.is_empty()));
}

#[test]
fn a_session_survives_a_restart() {
    let mut ctx = AppContext::new(1);
    let mut table: Vec<(String, i64)> = Vec::new();
    let mut book: Vec<(String, Vec<i64>)> = Vec::new();
    let inputs = vec![
        (Command::Add(wallet(1)), 10, 2),
        (Command::Add(wallet(2)), 10, 2),
        (Command::Add(wallet(1)), 20, 3),
        (Command::Add("nonsense".to_string()), 20, 3),
        (Command::Remove(wallet(2)), 10, 2),
        (Command::List, 10, 2),
        (Command::Add(wallet(3)), 20, 1),
        (Command::Remove(wallet(9)), 20, 1),
        (Command::Add(wallet(1)), 10, 2),
    ];
    for (cmd, chat, user) in inputs {
        for effect in handle_command(&mut ctx, &cmd, chat, user, NOW, None) {
            if let Effect::Store(s) = effect {
                let row = (s.wallet, s.chat_id);
                if s.sql.starts_with("INSERT") {
                    if !table.contains(&row) {
                        table.push(row);
                    }
                } else {
                    table.retain(|r| *r != row);
                }
            }
        }
    }
    let mut again = AppContext::new(1);
    load_state_from_db(&mut again.state, &table);
    for ctx in [&ctx, &again] {
        let mut entries = all_entries(&ctx.state);
        entries.retain(|e| !e.1.is_empty());
        entries.iter_mut().for_each(|e| e.1.sort());
        entries.sort();
        if book.is_empty() {
            book = entries;
        } else {
            assert_eq!(book, entries);
        }
    }
    assert_eq!(book.len(), 2);
}
