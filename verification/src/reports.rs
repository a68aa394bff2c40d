//! The reports that the bot answers commands with. Amounts, rates and short addresses come in as
//! finished text.

use crate::monitor::Utxo;
use crate::reply::{refreshable, refreshable_reply, plain, plain_reply, Reply};
use crate::text::{
    additions_hide_nothing, decimal, has_prefix, join, joined, push_decimal, shows, texts,
    the_end_is_shown, the_start_is_shown,
};
use vstd::prelude::*;

verus! {

/// The wallets of a chat.
pub open spec fn list_text(wallets: Seq<Seq<char>>, now: Seq<char>) -> Seq<char> {
    if wallets.len() == 0 {
        "No wallets tracked.\n\n⏱️ <code>"@
            + now
            + "</code>"@
    } else {
        "📁 <b>Portfolio:</b>\n<code>"@
            + joined(wallets, "\n"@)
            + "</code>\n\n⏱️ <code>"@
            + now
            + "</code>"@
    }
}

/// The wallets of a chat.
pub fn list_reply(wallets: &Vec<String>, now: &str, edit: Option<i32>) -> (r: Reply)
    ensures
        r@ == refreshable(list_text(texts(wallets@), now@), edit, "refresh_list"@),
{
    if wallets.len() == 0 {
        let mut out = "No wallets tracked.\n\n⏱️ <code>".to_owned();
        out.append(now);
        out.append("</code>");
        return refreshable_reply(out, edit, "refresh_list");
    }
    let wallet_lines = join(wallets, "\n");
    let mut out = "📁 <b>Portfolio:</b>\n<code>".to_owned();
    out.append(wallet_lines.as_str());
    out.append("</code>\n\n⏱️ <code>");
    out.append(now);
    out.append("</code>");
    refreshable_reply(out, edit, "refresh_list")
}

/// The balance of one wallet, ready to print.
pub struct WalletBalance {
    pub short: String,
    pub balance: String,
    pub utxos: usize,
}

/// The balance of a wallet with these outputs.
pub fn balance_line(short: String, balance: String, utxos: &Vec<Utxo>) -> (r: WalletBalance)
    ensures
        r.short@ == short@,
        r.balance@ == balance@,
        r.utxos == utxos@.len(),
{
    WalletBalance { short, balance, utxos: utxos.len() }
}

/// One paragraph for each wallet.
pub open spec fn balance_lines(prefix: Seq<char>, lines: Seq<WalletBalance>) -> Seq<char>
    decreases lines.len(),
{
    if lines.len() == 0 {
        prefix
    } else {
        let line = lines.last();
        balance_lines(prefix, lines.drop_last())
            + "💳 <code>"@
            + line.short@
            + "</code>\n├ <b>Live Balance:</b> "@
            + line.balance@
            + " KAS\n└ <b>UTXOs:</b> "@
            + decimal(line.utxos as nat)
            + "\n\n"@
    }
}

fn push_balance_lines(out: &mut String, lines: &Vec<WalletBalance>)
    ensures
        final(out)@ == balance_lines(old(out)@, lines@),
{
    let ghost prefix = out@;
    let mut i: usize = 0;
    while i < lines.len()
        invariant
            i <= lines.len(),
            out@ == balance_lines(prefix, lines@.take(i as int)),
        decreases lines.len() - i,
    {
        let line = &lines[i];
        assert(lines@.take(i + 1).drop_last() =~= lines@.take(i as int));
        out.append("💳 <code>");
        out.append(line.short.as_str());
        out.append("</code>\n├ <b>Live Balance:</b> ");
        out.append(line.balance.as_str());
        out.append(" KAS\n└ <b>UTXOs:</b> ");
        push_decimal(out, line.utxos as u128);
        out.append("\n\n");
        i += 1;
    }
    assert(lines@.take(i as int) =~= lines@);
}

pub open spec fn balance_text(lines: Seq<WalletBalance>, total: Seq<char>, now: Seq<char>) -> Seq<char> {
    let head = "💰 <b>Wallet Analysis & Live Balance</b>\n⏱️ <code>"@
        + now
        + "</code>\n━━━━━━━━━━━━━━━━━━\n"@;
    balance_lines(head, lines)
        + "━━━━━━━━━━━━━━━━━━\n💎 <b>Total Holdings:</b> <code>"@
        + total
        + " KAS</code>"@
}

/// The live balance of the wallets of a chat.
pub fn balance_reply(lines: &Vec<WalletBalance>, total: &str, now: &str, edit: Option<i32>) -> (r: Reply)
    ensures
        r@ == refreshable(balance_text(lines@, total@, now@), edit, "refresh_balance"@),
{
    let mut out = "💰 <b>Wallet Analysis & Live Balance</b>\n⏱️ <code>".to_owned();
    out.append(now);
    out.append("</code>\n━━━━━━━━━━━━━━━━━━\n");
    push_balance_lines(&mut out, lines);
    out.append("━━━━━━━━━━━━━━━━━━\n💎 <b>Total Holdings:</b> <code>");
    out.append(total);
    out.append(" KAS</code>");
    refreshable_reply(out, edit, "refresh_balance")
}

/// The mined blocks of one wallet that are not spent, ready to print.
pub struct WalletBlocks {
    pub short: String,
    pub blocks: usize,
    pub value: String,
}

/// The mined blocks of a wallet with these outputs.
pub fn blocks_line(short: String, value: String, utxos: &Vec<Utxo>) -> (r: WalletBlocks)
    ensures
        r.short@ == short@,
        r.value@ == value@,
        r.blocks == mined(utxos@).len(),
        r.blocks == utxos@.filter(|u: Utxo| u.is_coinbase).len(),
{
    WalletBlocks { short, blocks: mined_amounts(utxos).len(), value }
}

/// The blocks of all wallets together.
pub open spec fn block_total(lines: Seq<WalletBlocks>) -> nat
    decreases lines.len(),
{
    if lines.len() == 0 {
        0
    } else {
        block_total(lines.drop_last()) + lines.last().blocks as nat
    }
}

/// A total never outgrows its number of lines times the largest count.
proof fn block_total_bound(lines: Seq<WalletBlocks>)
    ensures
        block_total(lines) <= lines.len() * 0xffff_ffff_ffff_ffff,
    decreases lines.len(),
{
    if lines.len() > 0 {
        block_total_bound(lines.drop_last());
        assert(lines.len() * 0xffff_ffff_ffff_ffff == (lines.len() - 1) * 0xffff_ffff_ffff_ffff
            + 0xffff_ffff_ffff_ffff) by (nonlinear_arith);
    }
}

fn count_blocks(lines: &Vec<WalletBlocks>) -> (n: u128)
    ensures
        n == block_total(lines@),
{
    let mut n: u128 = 0;
    let mut i: usize = 0;
    while i < lines.len()
        invariant
            i <= lines.len(),
            n == block_total(lines@.take(i as int)),
        decreases lines.len() - i,
    {
        assert(lines@.take(i + 1).drop_last() =~= lines@.take(i as int));
        proof {
            block_total_bound(lines@.take(i as int));
            assert(i * 0xffff_ffff_ffff_ffff <= 0xffff_ffff_ffff_ffff * 0xffff_ffff_ffff_ffff) by (nonlinear_arith)
                requires
                    i <= 0xffff_ffff_ffff_ffff,
            ;
        }
        n = n + lines[i].blocks as u128;
        i += 1;
    }
    assert(lines@.take(i as int) =~= lines@);
    n
}

/// One paragraph for each wallet.
pub open spec fn block_lines(prefix: Seq<char>, lines: Seq<WalletBlocks>) -> Seq<char>
    decreases lines.len(),
{
    if lines.len() == 0 {
        prefix
    } else {
        let line = lines.last();
        block_lines(prefix, lines.drop_last())
            + "💳 <code>"@
            + line.short@
            + "</code>\n├ <b>Blocks Mined:</b> "@
            + decimal(line.blocks as nat)
            + "\n└ <b>Rewards Value:</b> "@
            + line.value@
            + " KAS\n\n"@
    }
}

fn push_block_lines(out: &mut String, lines: &Vec<WalletBlocks>)
    ensures
        final(out)@ == block_lines(old(out)@, lines@),
{
    let ghost prefix = out@;
    let mut i: usize = 0;
    while i < lines.len()
        invariant
            i <= lines.len(),
            out@ == block_lines(prefix, lines@.take(i as int)),
        decreases lines.len() - i,
    {
        let line = &lines[i];
        assert(lines@.take(i + 1).drop_last() =~= lines@.take(i as int));
        out.append("💳 <code>");
        out.append(line.short.as_str());
        out.append("</code>\n├ <b>Blocks Mined:</b> ");
        push_decimal(out, line.blocks as u128);
        out.append("\n└ <b>Rewards Value:</b> ");
        out.append(line.value.as_str());
        out.append(" KAS\n\n");
        i += 1;
    }
    assert(lines@.take(i as int) =~= lines@);
}

pub open spec fn blocks_text(lines: Seq<WalletBlocks>, total: Seq<char>, now: Seq<char>) -> Seq<char> {
    let head = "🧱 <b>Mined Blocks Tracker (Unspent)</b>\n⏱️ <code>"@
        + now
        + "</code>\n━━━━━━━━━━━━━━━━━━\n"@;
    block_lines(head, lines)
        + "━━━━━━━━━━━━━━━━━━\n🏆 <b>Total Blocks:</b> "@
        + decimal(block_total(lines))
        + "\n💎 <b>Total Mined Value:</b> "@
        + total
        + " KAS\n\n<i>*Note: Nodes only index unspent block rewards.</i>"@
}

/// The mined blocks of the wallets of a chat that are not spent.
pub fn blocks_reply(lines: &Vec<WalletBlocks>, total: &str, now: &str, edit: Option<i32>) -> (r: Reply)
    ensures
        r@ == refreshable(blocks_text(lines@, total@, now@), edit, "refresh_blocks"@),
{
    let count = count_blocks(lines);
    let mut out = "🧱 <b>Mined Blocks Tracker (Unspent)</b>\n⏱️ <code>".to_owned();
    out.append(now);
    out.append("</code>\n━━━━━━━━━━━━━━━━━━\n");
    push_block_lines(&mut out, lines);
    out.append("━━━━━━━━━━━━━━━━━━\n🏆 <b>Total Blocks:</b> ");
    push_decimal(&mut out, count as u128);
    out.append("\n💎 <b>Total Mined Value:</b> ");
    out.append(total);
    out.append(" KAS\n\n<i>*Note: Nodes only index unspent block rewards.</i>");
    refreshable_reply(out, edit, "refresh_blocks")
}

/// The blocks that one wallet mined of late, and the hashrates they stand for, ready to print.
pub struct MinerLine {
    pub short: String,
    pub rate_1h: String,
    pub blocks_1h: usize,
    pub rate_24h: String,
    pub blocks_24h: usize,
    pub rate_7d: String,
    pub blocks_7d: usize,
}

/// What the node told for an estimate: one line for each wallet, and the hashrate of the network.
pub struct MinerEstimate {
    pub lines: Vec<MinerLine>,
    pub network_rate: String,
}

/// One paragraph for each wallet.
pub open spec fn miner_lines(prefix: Seq<char>, lines: Seq<MinerLine>) -> Seq<char>
    decreases lines.len(),
{
    if lines.len() == 0 {
        prefix
    } else {
        let line = lines.last();
        miner_lines(prefix, lines.drop_last())
            + "💳 <code>"@
            + line.short@
            + "</code>\n├ <b>1 Hour:</b> "@
            + line.rate_1h@
            + " ("@
            + decimal(line.blocks_1h as nat)
            + " Blks)\n├ <b>24 Hours:</b> "@
            + line.rate_24h@
            + " ("@
            + decimal(line.blocks_24h as nat)
            + " Blks)\n└ <b>7 Days:</b> "@
            + line.rate_7d@
            + " ("@
            + decimal(line.blocks_7d as nat)
            + " Blks)\n\n"@
    }
}

fn push_miner_lines(out: &mut String, lines: &Vec<MinerLine>)
    ensures
        final(out)@ == miner_lines(old(out)@, lines@),
{
    let ghost prefix = out@;
    let mut i: usize = 0;
    while i < lines.len()
        invariant
            i <= lines.len(),
            out@ == miner_lines(prefix, lines@.take(i as int)),
        decreases lines.len() - i,
    {
        let line = &lines[i];
        assert(lines@.take(i + 1).drop_last() =~= lines@.take(i as int));
        out.append("💳 <code>");
        out.append(line.short.as_str());
        out.append("</code>\n├ <b>1 Hour:</b> ");
        out.append(line.rate_1h.as_str());
        out.append(" (");
        push_decimal(out, line.blocks_1h as u128);
        out.append(" Blks)\n├ <b>24 Hours:</b> ");
        out.append(line.rate_24h.as_str());
        out.append(" (");
        push_decimal(out, line.blocks_24h as u128);
        out.append(" Blks)\n└ <b>7 Days:</b> ");
        out.append(line.rate_7d.as_str());
        out.append(" (");
        push_decimal(out, line.blocks_7d as u128);
        out.append(" Blks)\n\n");
        i += 1;
    }
    assert(lines@.take(i as int) =~= lines@);
}

pub open spec fn miner_text(estimate: Option<MinerEstimate>, now: Seq<char>) -> Seq<char> {
    let head = "⛏️ <b>Solo-Miner Hashrate Estimation</b>\n⏱️ <code>"@
        + now
        + "</code>\n━━━━━━━━━━━━━━━━━━\n"@;
    match estimate {
        Some(e) => miner_lines(head, e.lines@)
            + "━━━━━━━━━━━━━━━━━━\n🌐 <b>Network Hashrate:</b> "@
            + e.network_rate@
            + "\n<i>*Note: Based on unspent node rewards.</i>"@,
        None => head,
    }
}

/// The hashrate that the wallets of a chat seem to mine with. Without an estimate from the node
/// only the heading is left.
pub fn miner_reply(estimate: &Option<MinerEstimate>, now: &str, edit: Option<i32>) -> (r: Reply)
    ensures
        r@ == refreshable(miner_text(*estimate, now@), edit, "refresh_miner"@),
{
    let mut out = "⛏️ <b>Solo-Miner Hashrate Estimation</b>\n⏱️ <code>".to_owned();
    out.append(now);
    out.append("</code>\n━━━━━━━━━━━━━━━━━━\n");
    if let Some(e) = estimate {
        push_miner_lines(&mut out, &e.lines);
        out.append("━━━━━━━━━━━━━━━━━━\n🌐 <b>Network Hashrate:</b> ");
        out.append(e.network_rate.as_str());
        out.append("\n<i>*Note: Based on unspent node rewards.</i>");
    }
    refreshable_reply(out, edit, "refresh_miner")
}

/// The outputs that were mined.
pub open spec fn mined(utxos: Seq<Utxo>) -> Seq<Utxo> {
    utxos.filter(|u: Utxo| u.is_coinbase)
}

/// The amounts of the outputs that were mined, in order.
pub fn mined_amounts(utxos: &Vec<Utxo>) -> (r: Vec<u64>)
    ensures
        r@ == mined(utxos@).map_values(|u: Utxo| u.amount),
        r@ == utxos@.filter(|u: Utxo| u.is_coinbase).map_values(|u: Utxo| u.amount),
{
    let ghost pred = |u: Utxo| u.is_coinbase;
    let ghost amount = |u: Utxo| u.amount;
    let mut out: Vec<u64> = Vec::new();
    let mut i: usize = 0;
    proof {
        reveal(Seq::filter);
        assert(utxos@.take(0).filter(pred).map_values(amount) =~= seq![]);
    }
    while i < utxos.len()
        invariant
            i <= utxos.len(),
            pred == (|u: Utxo| u.is_coinbase),
            amount == (|u: Utxo| u.amount),
            out@ == utxos@.take(i as int).filter(pred).map_values(amount),
        decreases utxos.len() - i,
    {
        proof {
            reveal(Seq::filter);
            assert(utxos@.take(i + 1).drop_last() =~= utxos@.take(i as int));
        }
        let ghost before = utxos@.take(i as int).filter(pred);
        if utxos[i].is_coinbase {
            out.push(utxos[i].amount);
            assert(before.push(utxos@[i as int]).map_values(amount) =~= before.map_values(amount).push(
                utxos@[i as int].amount,
            ));
        }
        i += 1;
    }
    assert(utxos@.take(i as int) =~= utxos@);
    out
}

/// How many scores ago an output came in, counted from the present score. An output from ahead
/// of it counts as new.
pub open spec fn age(utxo: Utxo, current_daa: u64) -> int {
    if current_daa >= utxo.block_daa_score {
        current_daa - utxo.block_daa_score
    } else {
        0
    }
}

/// How many of the outputs were mined and are at most so old.
pub open spec fn mined_within(utxos: Seq<Utxo>, current_daa: u64, limit: int) -> nat
    decreases utxos.len(),
{
    if utxos.len() == 0 {
        0
    } else {
        let rest = mined_within(utxos.drop_last(), current_daa, limit);
        if utxos.last().is_coinbase && age(utxos.last(), current_daa) <= limit {
            rest + 1
        } else {
            rest
        }
    }
}

/// How many blocks were mined of late.
pub struct MinedCounts {
    pub blocks_1h: usize,
    pub blocks_24h: usize,
    pub blocks_7d: usize,
}

/// Counts the blocks of the last hour, day and week; a score stands for a second.
pub fn count_mined(utxos: &Vec<Utxo>, current_daa: u64) -> (r: MinedCounts)
    ensures
        r.blocks_1h == mined_within(utxos@, current_daa, 3600),
        r.blocks_24h == mined_within(utxos@, current_daa, 86400),
        r.blocks_7d == mined_within(utxos@, current_daa, 604800),
        r.blocks_1h == utxos@.filter(mined_since(current_daa, 3600)).len(),
        r.blocks_24h == utxos@.filter(mined_since(current_daa, 86400)).len(),
        r.blocks_7d == utxos@.filter(mined_since(current_daa, 604800)).len(),
{
    proof {
        every_mined_output_is_counted(utxos@, current_daa, 3600);
        every_mined_output_is_counted(utxos@, current_daa, 86400);
        every_mined_output_is_counted(utxos@, current_daa, 604800);
    }
    let mut r = MinedCounts { blocks_1h: 0, blocks_24h: 0, blocks_7d: 0 };
    let mut i: usize = 0;
    while i < utxos.len()
        invariant
            i <= utxos.len(),
            r.blocks_1h <= i,
            r.blocks_24h <= i,
            r.blocks_7d <= i,
            r.blocks_1h == mined_within(utxos@.take(i as int), current_daa, 3600),
            r.blocks_24h == mined_within(utxos@.take(i as int), current_daa, 86400),
            r.blocks_7d == mined_within(utxos@.take(i as int), current_daa, 604800),
        decreases utxos.len() - i,
    {
        assert(utxos@.take(i + 1).drop_last() =~= utxos@.take(i as int));
        if utxos[i].is_coinbase {
            let age_in_blocks: u64 = if current_daa >= utxos[i].block_daa_score {
                current_daa - utxos[i].block_daa_score
            } else {
                0
            };
            if age_in_blocks <= 3600 {
                r.blocks_1h = r.blocks_1h + 1;
            }
            if age_in_blocks <= 86400 {
                r.blocks_24h = r.blocks_24h + 1;
            }
            if age_in_blocks <= 604800 {
                r.blocks_7d = r.blocks_7d + 1;
            }
        }
        i += 1;
    }
    assert(utxos@.take(i as int) =~= utxos@);
    r
}

/// Which outputs were mined and came in at most so many scores ago.
pub open spec fn mined_since(current_daa: u64, limit: int) -> spec_fn(Utxo) -> bool {
    |u: Utxo| u.is_coinbase && current_daa - u.block_daa_score <= limit
}

/// The count for a span is that of all listed outputs that were mined and are not older, whatever
/// their place, amount or transaction. A span that reaches back to the start counts all of them.
pub proof fn every_mined_output_is_counted(utxos: Seq<Utxo>, current_daa: u64, limit: int)
    requires
        limit >= 0,
    ensures
        mined_within(utxos, current_daa, limit) == utxos.filter(
            |u: Utxo| u.is_coinbase && current_daa - u.block_daa_score <= limit,
        ).len(),
        mined_within(utxos, current_daa, limit) == utxos.filter(mined_since(current_daa, limit)).len(),
        limit >= current_daa ==> mined_within(utxos, current_daa, limit) == utxos.filter(
            |u: Utxo| u.is_coinbase,
        ).len(),
    decreases utxos.len(),
{
    let pred = |u: Utxo| u.is_coinbase && current_daa - u.block_daa_score <= limit;
    let all = |u: Utxo| u.is_coinbase;
    reveal(Seq::filter);
    assert(pred =~= mined_since(current_daa, limit));
    if utxos.len() > 0 {
        every_mined_output_is_counted(utxos.drop_last(), current_daa, limit);
    }
}

/// The estimate for a wallet with these outputs.
pub fn miner_line(
    short: String,
    rate_1h: String,
    rate_24h: String,
    rate_7d: String,
    utxos: &Vec<Utxo>,
    current_daa: u64,
) -> (r: MinerLine)
    ensures
        r.short@ == short@,
        r.rate_1h@ == rate_1h@,
        r.rate_24h@ == rate_24h@,
        r.rate_7d@ == rate_7d@,
        r.blocks_1h == mined_within(utxos@, current_daa, 3600),
        r.blocks_24h == mined_within(utxos@, current_daa, 86400),
        r.blocks_7d == mined_within(utxos@, current_daa, 604800),
{
    let counts = count_mined(utxos, current_daa);
    MinerLine {
        short,
        rate_1h,
        blocks_1h: counts.blocks_1h,
        rate_24h,
        blocks_24h: counts.blocks_24h,
        rate_7d,
        blocks_7d: counts.blocks_7d,
    }
}

/// A longer span holds at least the blocks of a shorter one, and no span holds more than all
/// mined outputs.
pub proof fn longer_spans_hold_more(utxos: Seq<Utxo>, current_daa: u64, short: int, long: int)
    requires
        short <= long,
    ensures
        mined_within(utxos, current_daa, short) <= mined_within(utxos, current_daa, long) <= mined(
            utxos,
        ).len(),
    decreases utxos.len(),
{
    reveal(Seq::filter);
    if utxos.len() > 0 {
        longer_spans_hold_more(utxos.drop_last(), current_daa, short, long);
    }
}

/// What the node tells of itself.
pub struct ServerFacts {
    pub version: String,
    pub network: String,
    pub has_utxo_index: bool,
}

/// What the node tells of the DAG.
pub struct DagFacts {
    pub block_count: String,
    pub daa_score: u64,
    pub difficulty: String,
}

/// What the node tells of the coins.
pub struct SupplyFacts {
    pub circulating: String,
    pub minted: String,
}

/// What a block template tells.
pub struct TemplateFacts {
    pub transactions: usize,
    pub bits: u32,
}

/// What the node told, as far as it answered.
pub struct NetworkFacts {
    pub server: Option<ServerFacts>,
    pub peers: Option<usize>,
    pub synced: Option<bool>,
    pub dag: Option<DagFacts>,
    pub hashrate: Option<String>,
    pub supply: Option<SupplyFacts>,
    pub template: Option<TemplateFacts>,
}

pub open spec fn index_state(enabled: bool) -> Seq<char> {
    if enabled {
        "Enabled ✅"@
    } else {
        "Disabled ❌"@
    }
}

fn index_word(enabled: bool) -> (r: &'static str)
    ensures
        r@ == index_state(enabled),
{
    if enabled {
        "Enabled ✅"
    } else {
        "Disabled ❌"
    }
}

pub open spec fn sync_state(synced: bool) -> Seq<char> {
    if synced {
        "100% Synced ✅"@
    } else {
        "Syncing ⚠️"@
    }
}

fn sync_word(synced: bool) -> (r: &'static str)
    ensures
        r@ == sync_state(synced),
{
    if synced {
        "100% Synced ✅"
    } else {
        "Syncing ⚠️"
    }
}

pub open spec fn network_text(facts: NetworkFacts, now: Seq<char>) -> Seq<char> {
    let t1 = "🛠️ <b>Node Health & Network</b>\n"@;
    let t2 = match facts.server {
        Some(s) => t1
            + "├ <b>Version:</b> "@
            + s.version@
            + " | <b>Net:</b> "@
            + s.network@
            + "\n├ <b>UTXO Index:</b> "@
            + index_state(s.has_utxo_index)
            + "\n"@,
        None => t1,
    };
    let t3 = match facts.peers {
        Some(n) => t2
            + "├ <b>Connected Peers:</b> "@
            + decimal(n as nat)
            + "\n"@,
        None => t2,
    };
    let t4 = match facts.synced {
        Some(b) => t3
            + "└ <b>Sync Status:</b> "@
            + sync_state(b)
            + "\n\n"@,
        None => t3,
    };
    let t5 = t4
        + "📊 <b>GHOSTDAG Consensus</b>\n"@;
    let t6 = match facts.dag {
        Some(d) => t5
            + "├ <b>Total Blocks:</b> "@
            + d.block_count@
            + "\n├ <b>DAA Score:</b> "@
            + decimal(d.daa_score as nat)
            + "\n├ <b>Difficulty:</b> "@
            + d.difficulty@
            + "\n"@,
        None => t5,
    };
    let t7 = match facts.hashrate {
        Some(h) => t6
            + "├ <b>Hashrate:</b> "@
            + h@
            + "\n"@,
        None => t6,
    };
    let t8 = match facts.supply {
        Some(c) => t7
            + "├ <b>Circulating:</b> "@
            + c.circulating@
            + " KAS\n└ <b>Minted:</b> "@
            + c.minted@
            + "%\n\n"@,
        None => t7,
    };
    let t9 = t8
        + "⛏️ <b>Mining Readiness</b>\n"@;
    let t10 = match facts.template {
        Some(t) => t9
            + "├ <b>Status:</b> Solo Ready ✅\n├ <b>Mempool TXs:</b> "@
            + decimal(t.transactions as nat)
            + "\n└ <b>Next Block Bits:</b> "@
            + decimal(t.bits as nat)
            + "\n"@,
        None => t9
            + "└ <b>Status:</b> Not Ready ❌\n"@,
    };
    t10
        + "\n⏱️ <code>"@
        + now
        + "</code>"@
}

/// The state of the node and of the network. A question that the node did not answer leaves its
/// lines out.
pub fn network_reply(facts: &NetworkFacts, now: &str, edit: Option<i32>) -> (r: Reply)
    ensures
        r@ == refreshable(network_text(*facts, now@), edit, "refresh_network"@),
{
    let mut out = "🛠️ <b>Node Health & Network</b>\n".to_owned();
    if let Some(s) = &facts.server {
        out.append("├ <b>Version:</b> ");
        out.append(s.version.as_str());
        out.append(" | <b>Net:</b> ");
        out.append(s.network.as_str());
        out.append("\n├ <b>UTXO Index:</b> ");
        out.append(index_word(s.has_utxo_index));
        out.append("\n");
    }
    if let Some(n) = &facts.peers {
        out.append("├ <b>Connected Peers:</b> ");
        push_decimal(&mut out, *n as u128);
        out.append("\n");
    }
    if let Some(b) = &facts.synced {
        out.append("└ <b>Sync Status:</b> ");
        out.append(sync_word(*b));
        out.append("\n\n");
    }
    out.append("📊 <b>GHOSTDAG Consensus</b>\n");
    if let Some(d) = &facts.dag {
        out.append("├ <b>Total Blocks:</b> ");
        out.append(d.block_count.as_str());
        out.append("\n├ <b>DAA Score:</b> ");
        push_decimal(&mut out, d.daa_score as u128);
        out.append("\n├ <b>Difficulty:</b> ");
        out.append(d.difficulty.as_str());
        out.append("\n");
    }
    if let Some(h) = &facts.hashrate {
        out.append("├ <b>Hashrate:</b> ");
        out.append(h.as_str());
        out.append("\n");
    }
    if let Some(c) = &facts.supply {
        out.append("├ <b>Circulating:</b> ");
        out.append(c.circulating.as_str());
        out.append(" KAS\n└ <b>Minted:</b> ");
        out.append(c.minted.as_str());
        out.append("%\n\n");
    }
    out.append("⛏️ <b>Mining Readiness</b>\n");
    match &facts.template {
        Some(t) => {
            out.append("├ <b>Status:</b> Solo Ready ✅\n├ <b>Mempool TXs:</b> ");
            push_decimal(&mut out, t.transactions as u128);
            out.append("\n└ <b>Next Block Bits:</b> ");
            push_decimal(&mut out, t.bits as u128);
            out.append("\n");
        },
        None => {
            out.append("└ <b>Status:</b> Not Ready ❌\n");
        },
    }
    out.append("\n⏱️ <code>");
    out.append(now);
    out.append("</code>");
    refreshable_reply(out, edit, "refresh_network")
}

pub open spec fn dag_text(blocks: Seq<char>, headers: Seq<char>, now: Seq<char>) -> Seq<char> {
    "🧱 <b>BlockDAG Details:</b>\n🧱 <b>Blocks:</b> <code>"@
        + blocks
        + "</code>\n📑 <b>Headers:</b> <code>"@
        + headers
        + "</code>\n\n⏱️ <code>"@
        + now
        + "</code>"@
}

/// The size of the block DAG.
pub fn dag_reply(blocks: &str, headers: &str, now: &str, edit: Option<i32>) -> (r: Reply)
    ensures
        r@ == refreshable(dag_text(blocks@, headers@, now@), edit, "refresh_dag"@),
{
    let mut out = "🧱 <b>BlockDAG Details:</b>\n🧱 <b>Blocks:</b> <code>".to_owned();
    out.append(blocks);
    out.append("</code>\n📑 <b>Headers:</b> <code>");
    out.append(headers);
    out.append("</code>\n\n⏱️ <code>");
    out.append(now);
    out.append("</code>");
    refreshable_reply(out, edit, "refresh_dag")
}

pub open spec fn price_text(price: Option<Seq<char>>, now: Seq<char>) -> Seq<char> {
    match price {
        Some(v) => "💵 <b>Price:</b> <code>$"@
            + v
            + " USD</code> (CoinGecko)\n\n⏱️ <code>"@
            + now
            + "</code>"@,
        None => "⚠️ <b>Price API Syncing...</b>\n\n⏱️ <code>"@
            + now
            + "</code>"@,
    }
}

/// The price, once it is known.
pub fn price_reply(price: Option<&str>, now: &str, edit: Option<i32>) -> (r: Reply)
    ensures
        r@ == refreshable(
            price_text(
                match price {
                    Some(v) => Some(v@),
                    None => None,
                },
                now@,
            ),
            edit,
            "refresh_price"@,
        ),
{
    match price {
        Some(v) => {
            let mut out = "💵 <b>Price:</b> <code>$".to_owned();
            out.append(v);
            out.append(" USD</code> (CoinGecko)\n\n⏱️ <code>");
            out.append(now);
            out.append("</code>");
            refreshable_reply(out, edit, "refresh_price")
        },
        None => {
            let mut out = "⚠️ <b>Price API Syncing...</b>\n\n⏱️ <code>".to_owned();
            out.append(now);
            out.append("</code>");
            refreshable_reply(out, edit, "refresh_price")
        },
    }
}

pub open spec fn market_text(cap: Option<Seq<char>>, now: Seq<char>) -> Seq<char> {
    match cap {
        Some(v) => "📈 <b>Market Cap:</b> <code>$"@
            + v
            + " USD</code> (CoinGecko)\n\n⏱️ <code>"@
            + now
            + "</code>"@,
        None => "⚠️ <b>Market Cap API Syncing...</b>\n\n⏱️ <code>"@
            + now
            + "</code>"@,
    }
}

/// The market capitalisation, once it is known.
pub fn market_reply(cap: Option<&str>, now: &str, edit: Option<i32>) -> (r: Reply)
    ensures
        r@ == refreshable(
            market_text(
                match cap {
                    Some(v) => Some(v@),
                    None => None,
                },
                now@,
            ),
            edit,
            "refresh_market"@,
        ),
{
    match cap {
        Some(v) => {
            let mut out = "📈 <b>Market Cap:</b> <code>$".to_owned();
            out.append(v);
            out.append(" USD</code> (CoinGecko)\n\n⏱️ <code>");
            out.append(now);
            out.append("</code>");
            refreshable_reply(out, edit, "refresh_market")
        },
        None => {
            let mut out = "⚠️ <b>Market Cap API Syncing...</b>\n\n⏱️ <code>".to_owned();
            out.append(now);
            out.append("</code>");
            refreshable_reply(out, edit, "refresh_market")
        },
    }
}

pub open spec fn supply_text(circulating: Seq<char>, max: Seq<char>, minted: Seq<char>, now: Seq<char>) -> Seq<char> {
    "🪙 <b>Coin Supply:</b>\n├ <b>Circulating:</b> <code>"@
        + circulating
        + " KAS</code>\n├ <b>Max Supply:</b> <code>"@
        + max
        + " KAS</code>\n└ <b>Minted:</b> <code>"@
        + minted
        + "%</code>\n\n⏱️ <code>"@
        + now
        + "</code>"@
}

/// The coins in circulation.
pub fn supply_reply(circulating: &str, max: &str, minted: &str, now: &str, edit: Option<i32>) -> (r: Reply)
    ensures
        r@ == refreshable(supply_text(circulating@, max@, minted@, now@), edit, "refresh_supply"@),
{
    let mut out = "🪙 <b>Coin Supply:</b>\n├ <b>Circulating:</b> <code>".to_owned();
    out.append(circulating);
    out.append(" KAS</code>\n├ <b>Max Supply:</b> <code>");
    out.append(max);
    out.append(" KAS</code>\n└ <b>Minted:</b> <code>");
    out.append(minted);
    out.append("%</code>\n\n⏱️ <code>");
    out.append(now);
    out.append("</code>");
    refreshable_reply(out, edit, "refresh_supply")
}

pub open spec fn fees_text(rate: Seq<char>, now: Seq<char>) -> Seq<char> {
    "⛽ <b>Fee Estimate:</b> <code>"@
        + rate
        + " sompi/gram</code>\n\n⏱️ <code>"@
        + now
        + "</code>"@
}

/// The fee rate.
pub fn fees_reply(rate: &str, now: &str, edit: Option<i32>) -> (r: Reply)
    ensures
        r@ == refreshable(fees_text(rate@, now@), edit, "refresh_fees"@),
{
    let mut out = "⛽ <b>Fee Estimate:</b> <code>".to_owned();
    out.append(rate);
    out.append(" sompi/gram</code>\n\n⏱️ <code>");
    out.append(now);
    out.append("</code>");
    refreshable_reply(out, edit, "refresh_fees")
}

/// How the node answered: within so many milliseconds, or not at all.
pub open spec fn node_state(ping: Option<u128>) -> Seq<char> {
    match ping {
        Some(ms) => "Online 🟢 ("@
            + decimal(ms as nat)
            + "ms)"@,
        None => "Offline 🔴"@,
    }
}

pub open spec fn stats_text(users: usize, wallets: usize, ping: Option<u128>, now: Seq<char>) -> Seq<char> {
    "📊 <b>Enterprise Analytics</b>\n━━━━━━━━━━━━━━━━━━\n👥 <b>Active Users:</b> "@
        + decimal(users as nat)
        + "\n💼 <b>Tracked Wallets:</b> "@
        + decimal(wallets as nat)
        + "\n🌐 <b>Node Ping:</b> "@
        + node_state(ping)
        + "\n\n⏱️ <code>"@
        + now
        + "</code>"@
}

/// How much the bot is used.
pub fn stats_reply(users: usize, wallets: usize, ping: Option<u128>, now: &str, edit: Option<i32>) -> (r: Reply)
    ensures
        r@ == refreshable(stats_text(users, wallets, ping, now@), edit, "refresh_stats"@),
{
    let node = match ping {
        Some(ms) => {
            let mut word = "Online 🟢 (".to_owned();
            push_decimal(&mut word, ms as u128);
            word.append("ms)");
            word
        },
        None => "Offline 🔴".to_owned(),
    };
    let mut out = "📊 <b>Enterprise Analytics</b>\n━━━━━━━━━━━━━━━━━━\n👥 <b>Active Users:</b> ".to_owned();
    push_decimal(&mut out, users as u128);
    out.append("\n💼 <b>Tracked Wallets:</b> ");
    push_decimal(&mut out, wallets as u128);
    out.append("\n🌐 <b>Node Ping:</b> ");
    out.append(node.as_str());
    out.append("\n\n⏱️ <code>");
    out.append(now);
    out.append("</code>");
    refreshable_reply(out, edit, "refresh_stats")
}

/// A number of bytes in whole mebibytes.
pub open spec fn mebibytes(bytes: u64) -> int {
    bytes as int / 0x10_0000
}

pub open spec fn truth(b: bool) -> Seq<char> {
    if b {
        "true"@
    } else {
        "false"@
    }
}

fn truth_word(b: bool) -> (r: &'static str)
    ensures
        r@ == truth(b),
{
    if b {
        "true"
    } else {
        "false"
    }
}

pub open spec fn sys_text(used: u64, total: u64, monitoring: bool, now: Seq<char>) -> Seq<char> {
    "⚙️ <b>Server Node Diagnostics:</b>\n🧠 <b>RAM Used:</b> <code>"@
        + decimal(mebibytes(used) as nat)
        + " MB</code>\n🧠 <b>RAM Total:</b> <code>"@
        + decimal(mebibytes(total) as nat)
        + " MB</code>\n👀 <b>Monitor:</b> <code>"@
        + truth(monitoring)
        + "</code>\n\n⏱️ <code>"@
        + now
        + "</code>"@
}

/// The state of the server.
pub fn sys_reply(used: u64, total: u64, monitoring: bool, now: &str, edit: Option<i32>) -> (r: Reply)
    ensures
        r@ == refreshable(sys_text(used, total, monitoring, now@), edit, "refresh_sys"@),
{
    let mut out = "⚙️ <b>Server Node Diagnostics:</b>\n🧠 <b>RAM Used:</b> <code>".to_owned();
    push_decimal(&mut out, (used / 1024 / 1024) as u128);
    out.append(" MB</code>\n🧠 <b>RAM Total:</b> <code>");
    push_decimal(&mut out, (total / 1024 / 1024) as u128);
    out.append(" MB</code>\n👀 <b>Monitor:</b> <code>");
    out.append(truth_word(monitoring));
    out.append("</code>\n\n⏱️ <code>");
    out.append(now);
    out.append("</code>");
    refreshable_reply(out, edit, "refresh_sys")
}

/// How many of the messages of a broadcast were delivered.
pub fn count_reached(outcomes: &Vec<bool>) -> (n: usize)
    ensures
        n == outcomes@.filter(|b: bool| b).len(),
{
    let ghost delivered = |b: bool| b;
    let mut n: usize = 0;
    let mut i: usize = 0;
    proof {
        reveal(Seq::filter);
        assert(outcomes@.take(0).filter(delivered).len() == 0);
    }
    while i < outcomes.len()
        invariant
            i <= outcomes.len(),
            n <= i,
            delivered == (|b: bool| b),
            n == outcomes@.take(i as int).filter(delivered).len(),
        decreases outcomes.len() - i,
    {
        proof {
            reveal(Seq::filter);
            assert(outcomes@.take(i + 1).drop_last() =~= outcomes@.take(i as int));
        }
        if outcomes[i] {
            n += 1;
        }
        i += 1;
    }
    assert(outcomes@.take(i as int) =~= outcomes@);
    n
}

pub open spec fn broadcast_text(reached: usize) -> Seq<char> {
    "✅ Broadcast sent to "@
        + decimal(reached as nat)
        + " users."@
}

/// How many users a broadcast reached.
pub fn broadcast_reply(reached: usize) -> (r: Reply)
    ensures
        r@ == plain(broadcast_text(reached)),
{
    let mut out = "✅ Broadcast sent to ".to_owned();
    push_decimal(&mut out, reached as u128);
    out.append(" users.");
    plain_reply(out)
}

/// How many lines of the log are shown at most.
pub const LOG_TAIL: usize = 25;

/// The lines that could be read, in order.
pub open spec fn readable(lines: Seq<Option<String>>) -> Seq<Seq<char>>
    decreases lines.len(),
{
    if lines.len() == 0 {
        Seq::empty()
    } else {
        match lines.last() {
            Some(line) => readable(lines.drop_last()).push(line@),
            None => readable(lines.drop_last()),
        }
    }
}

/// The end of the log in reading order, from its lines in backward order.
pub open spec fn log_tail(backward: Seq<Option<String>>) -> Seq<Seq<char>> {
    if backward.len() <= LOG_TAIL {
        readable(backward).reverse()
    } else {
        readable(backward.take(LOG_TAIL as int)).reverse()
    }
}

pub open spec fn logs_text(backward: Seq<Option<String>>) -> Seq<char> {
    "📜 <b>System Logs (Tail):</b>\n<pre>"@
        + joined(log_tail(backward), "\n"@)
        + "</pre>"@
}

/// The end of the log, from its lines in backward order. A line that could not be read is left
/// out, but counts.
pub fn logs_reply(backward: &Vec<Option<String>>) -> (r: Reply)
    ensures
        r@ == plain(logs_text(backward@)),
{
    let n: usize = if backward.len() <= LOG_TAIL {
        backward.len()
    } else {
        LOG_TAIL
    };
    let ghost shown = backward@.take(n as int);
    assert(backward.len() <= LOG_TAIL ==> shown =~= backward@);
    let mut lines: Vec<String> = Vec::new();
    let mut i: usize = n;
    assert(shown.take(n as int) =~= shown);
    assert(texts(lines@) + readable(shown).reverse() =~= readable(shown).reverse());
    while i > 0
        invariant
            i <= n <= backward.len(),
            shown == backward@.take(n as int),
            texts(lines@) + readable(shown.take(i as int)).reverse() == readable(shown).reverse(),
        decreases i,
    {
        let ghost before = texts(lines@);
        i -= 1;
        proof {
            assert(shown.take(i + 1).drop_last() =~= shown.take(i as int));
            assert(shown.take(i + 1).last() == backward@[i as int]);
        }
        if let Some(line) = &backward[i] {
            lines.push(line.clone());
            let ghost rest = readable(shown.take(i as int));
            assert(texts(lines@) =~= before.push(line@));
            assert(before + rest.push(line@).reverse() =~= before.push(line@) + rest.reverse());
        }
    }
    assert(shown.take(0) =~= seq![]);
    assert(texts(lines@) + readable(shown.take(0)).reverse() =~= texts(lines@));
    let joined_lines = join(&lines, "\n");
    let mut out = "📜 <b>System Logs (Tail):</b>\n<pre>".to_owned();
    out.append(joined_lines.as_str());
    out.append("</pre>");
    plain_reply(out)
}

// ---- What the reports tell

/// Totals add up, over any lines: no wallet is left out of a total, and none counts twice.
pub proof fn totals_add_up(left: Seq<WalletBlocks>, right: Seq<WalletBlocks>, line: WalletBlocks)
    ensures
        block_total(Seq::empty()) == 0,
        block_total(seq![line]) == line.blocks,
        block_total(left + right) == block_total(left) + block_total(right),
    decreases right.len(),
{
    reveal_with_fuel(block_total, 2);
    if right.len() == 0 {
        assert(left + right =~= left);
    } else {
        assert((left + right).drop_last() =~= left + right.drop_last());
        totals_add_up(left, right.drop_last(), line);
    }
}

/// The paragraphs of a balance report go on from one another, one for each wallet, with its own
/// balance and the number of its outputs.
pub proof fn balances_of_all_wallets_are_told(
    prefix: Seq<char>,
    left: Seq<WalletBalance>,
    right: Seq<WalletBalance>,
    line: WalletBalance,
)
    ensures
        balance_lines(prefix, Seq::empty()) == prefix,
        balance_lines(prefix, left + right) == balance_lines(balance_lines(prefix, left), right),
        balance_lines(prefix, seq![line]) == prefix + "💳 <code>"@ + line.short@
            + "</code>\n├ <b>Live Balance:</b> "@ + line.balance@ + " KAS\n└ <b>UTXOs:</b> "@
            + decimal(line.utxos as nat) + "\n\n"@,
    decreases right.len(),
{
    reveal_with_fuel(balance_lines, 2);
    assert(seq![line].drop_last() =~= Seq::empty());
    if right.len() == 0 {
        assert(left + right =~= left);
    } else {
        assert((left + right).drop_last() =~= left + right.drop_last());
        balances_of_all_wallets_are_told(prefix, left, right.drop_last(), line);
    }
}

/// A balance report tells the time, the paragraphs of all wallets and then the total.
pub proof fn balance_reports_tell_the_total(
    lines: Seq<WalletBalance>,
    total: Seq<char>,
    now: Seq<char>,
)
    ensures
        shows(
            balance_text(lines, total, now),
            "━━━━━━━━━━━━━━━━━━\n💎 <b>Total Holdings:</b> <code>"@,
            total,
        ),
        has_prefix(
            balance_text(lines, total, now),
            balance_lines(
                "💰 <b>Wallet Analysis & Live Balance</b>\n⏱️ <code>"@ + now
                    + "</code>\n━━━━━━━━━━━━━━━━━━\n"@,
                lines,
            ),
        ),
{
    broadcast use {the_end_is_shown, additions_hide_nothing};

    let head = "💰 <b>Wallet Analysis & Live Balance</b>\n⏱️ <code>"@ + now
        + "</code>\n━━━━━━━━━━━━━━━━━━\n"@;
    let front = balance_lines(head, lines);
    assert(balance_text(lines, total, now).take(front.len() as int) =~= front);
}

/// The paragraphs of a block report go on from one another, one for each wallet, with the number of
/// its own blocks and their value.
pub proof fn blocks_of_all_wallets_are_told(
    prefix: Seq<char>,
    left: Seq<WalletBlocks>,
    right: Seq<WalletBlocks>,
    line: WalletBlocks,
)
    ensures
        block_lines(prefix, Seq::empty()) == prefix,
        block_lines(prefix, left + right) == block_lines(block_lines(prefix, left), right),
        block_lines(prefix, seq![line]) == prefix + "💳 <code>"@ + line.short@
            + "</code>\n├ <b>Blocks Mined:</b> "@ + decimal(line.blocks as nat)
            + "\n└ <b>Rewards Value:</b> "@ + line.value@ + " KAS\n\n"@,
    decreases right.len(),
{
    reveal_with_fuel(block_lines, 2);
    assert(seq![line].drop_last() =~= Seq::empty());
    if right.len() == 0 {
        assert(left + right =~= left);
    } else {
        assert((left + right).drop_last() =~= left + right.drop_last());
        blocks_of_all_wallets_are_told(prefix, left, right.drop_last(), line);
    }
}

/// A block report tells the paragraphs of all wallets and then the number of all their blocks and
/// the total value.
pub proof fn block_reports_tell_the_totals(lines: Seq<WalletBlocks>, total: Seq<char>, now: Seq<char>)
    ensures
        shows(
            blocks_text(lines, total, now),
            "━━━━━━━━━━━━━━━━━━\n🏆 <b>Total Blocks:</b> "@,
            decimal(block_total(lines)),
        ),
        shows(blocks_text(lines, total, now), "\n💎 <b>Total Mined Value:</b> "@, total),
        has_prefix(
            blocks_text(lines, total, now),
            block_lines(
                "🧱 <b>Mined Blocks Tracker (Unspent)</b>\n⏱️ <code>"@ + now
                    + "</code>\n━━━━━━━━━━━━━━━━━━\n"@,
                lines,
            ),
        ),
{
    broadcast use {the_end_is_shown, additions_hide_nothing};

    let head = "🧱 <b>Mined Blocks Tracker (Unspent)</b>\n⏱️ <code>"@ + now
        + "</code>\n━━━━━━━━━━━━━━━━━━\n"@;
    let front = block_lines(head, lines);
    assert(blocks_text(lines, total, now).take(front.len() as int) =~= front);
}

/// The paragraphs of an estimate go on from one another, one for each wallet, with the rate and the
/// number of blocks of each span.
pub proof fn rates_of_all_wallets_are_told(
    prefix: Seq<char>,
    left: Seq<MinerLine>,
    right: Seq<MinerLine>,
    line: MinerLine,
)
    ensures
        miner_lines(prefix, Seq::empty()) == prefix,
        miner_lines(prefix, left + right) == miner_lines(miner_lines(prefix, left), right),
        shows(miner_lines(prefix, seq![line]), "💳 <code>"@, line.short@),
        shows(
            miner_lines(prefix, seq![line]),
            "</code>\n├ <b>1 Hour:</b> "@,
            line.rate_1h@ + " ("@ + decimal(line.blocks_1h as nat),
        ),
        shows(
            miner_lines(prefix, seq![line]),
            " Blks)\n├ <b>24 Hours:</b> "@,
            line.rate_24h@ + " ("@ + decimal(line.blocks_24h as nat),
        ),
        shows(
            miner_lines(prefix, seq![line]),
            " Blks)\n└ <b>7 Days:</b> "@,
            line.rate_7d@ + " ("@ + decimal(line.blocks_7d as nat),
        ),
    decreases right.len(),
{
    reveal_with_fuel(miner_lines, 2);
    assert(seq![line].drop_last() =~= Seq::empty());
    if right.len() == 0 {
        assert(left + right =~= left);
    } else {
        assert((left + right).drop_last() =~= left + right.drop_last());
        rates_of_all_wallets_are_told(prefix, left, right.drop_last(), line);
    }
    broadcast use {the_end_is_shown, additions_hide_nothing};

    let name = prefix + "💳 <code>"@ + line.short@;
    let hour = line.rate_1h@ + " ("@ + decimal(line.blocks_1h as nat);
    let day = line.rate_24h@ + " ("@ + decimal(line.blocks_24h as nat);
    let week = line.rate_7d@ + " ("@ + decimal(line.blocks_7d as nat);
    let text = name + "</code>\n├ <b>1 Hour:</b> "@ + hour + " Blks)\n├ <b>24 Hours:</b> "@ + day
        + " Blks)\n└ <b>7 Days:</b> "@ + week + " Blks)\n\n"@;
    assert(miner_lines(prefix, seq![line]) =~= text);
}

/// An estimate tells the paragraphs of all wallets and then the rate of the network; without an
/// answer of the node, neither.
pub proof fn estimates_tell_the_network_rate(estimate: MinerEstimate, now: Seq<char>)
    ensures
        ({
            let head = "⛏️ <b>Solo-Miner Hashrate Estimation</b>\n⏱️ <code>"@ + now
                + "</code>\n━━━━━━━━━━━━━━━━━━\n"@;
            &&& miner_text(None, now) == head
            &&& has_prefix(miner_text(Some(estimate), now), miner_lines(head, estimate.lines@))
            &&& shows(
                miner_text(Some(estimate), now),
                "━━━━━━━━━━━━━━━━━━\n🌐 <b>Network Hashrate:</b> "@,
                estimate.network_rate@,
            )
        }),
{
    broadcast use {the_end_is_shown, additions_hide_nothing};

    let head = "⛏️ <b>Solo-Miner Hashrate Estimation</b>\n⏱️ <code>"@ + now
        + "</code>\n━━━━━━━━━━━━━━━━━━\n"@;
    let front = miner_lines(head, estimate.lines@);
    assert(miner_text(Some(estimate), now).take(front.len() as int) =~= front);
}

/// A report on the network tells every answer of the node, whichever others are missing.
pub proof fn network_reports_tell_every_answer(facts: NetworkFacts, now: Seq<char>)
    ensures
        ({
            let text = network_text(facts, now);
            &&& shows(text, "\n⏱️ <code>"@, now)
            &&& facts.server matches Some(s) ==> {
                &&& shows(text, "├ <b>Version:</b> "@, s.version@)
                &&& shows(text, " | <b>Net:</b> "@, s.network@)
                &&& s.has_utxo_index ==> shows(text, "\n├ <b>UTXO Index:</b> "@, "Enabled ✅"@)
                &&& !s.has_utxo_index ==> shows(text, "\n├ <b>UTXO Index:</b> "@, "Disabled ❌"@)
            }
            &&& facts.peers matches Some(n) ==> shows(
                text,
                "├ <b>Connected Peers:</b> "@,
                decimal(n as nat),
            )
            &&& facts.synced == Some(true) ==> shows(
                text,
                "└ <b>Sync Status:</b> "@,
                "100% Synced ✅"@,
            )
            &&& facts.synced == Some(false) ==> shows(
                text,
                "└ <b>Sync Status:</b> "@,
                "Syncing ⚠️"@,
            )
            &&& facts.dag matches Some(d) ==> {
                &&& shows(text, "├ <b>Total Blocks:</b> "@, d.block_count@)
                &&& shows(text, "\n├ <b>DAA Score:</b> "@, decimal(d.daa_score as nat))
                &&& shows(text, "\n├ <b>Difficulty:</b> "@, d.difficulty@)
            }
            &&& facts.hashrate matches Some(h) ==> shows(text, "├ <b>Hashrate:</b> "@, h@)
            &&& facts.supply matches Some(c) ==> {
                &&& shows(text, "├ <b>Circulating:</b> "@, c.circulating@)
                &&& shows(text, " KAS\n└ <b>Minted:</b> "@, c.minted@)
            }
            &&& facts.template matches Some(t) ==> {
                &&& shows(
                    text,
                    "├ <b>Status:</b> Solo Ready ✅\n├ <b>Mempool TXs:</b> "@,
                    decimal(t.transactions as nat),
                )
                &&& shows(text, "\n└ <b>Next Block Bits:</b> "@, decimal(t.bits as nat))
            }
            &&& facts.template is None ==> shows(
                text,
                "⛏️ <b>Mining Readiness</b>\n"@,
                "└ <b>Status:</b> Not Ready ❌\n"@,
            )
        }),
{
    broadcast use {the_end_is_shown, additions_hide_nothing};

}

/// The reports on the DAG, the supply and the fees tell each figure behind its own label, and the
/// time.
pub proof fn figures_are_told_behind_their_labels(
    a: Seq<char>,
    b: Seq<char>,
    c: Seq<char>,
    now: Seq<char>,
)
    ensures
        shows(dag_text(a, b, now), "🧱 <b>BlockDAG Details:</b>\n🧱 <b>Blocks:</b> <code>"@, a),
        shows(dag_text(a, b, now), "</code>\n📑 <b>Headers:</b> <code>"@, b),
        shows(dag_text(a, b, now), "</code>\n\n⏱️ <code>"@, now),
        shows(
            supply_text(a, b, c, now),
            "🪙 <b>Coin Supply:</b>\n├ <b>Circulating:</b> <code>"@,
            a,
        ),
        shows(supply_text(a, b, c, now), " KAS</code>\n├ <b>Max Supply:</b> <code>"@, b),
        shows(supply_text(a, b, c, now), " KAS</code>\n└ <b>Minted:</b> <code>"@, c),
        shows(supply_text(a, b, c, now), "%</code>\n\n⏱️ <code>"@, now),
        shows(fees_text(a, now), "⛽ <b>Fee Estimate:</b> <code>"@, a),
        shows(fees_text(a, now), " sompi/gram</code>\n\n⏱️ <code>"@, now),
{
    broadcast use {the_start_is_shown, the_end_is_shown, additions_hide_nothing};

}

/// The reports on the price and the market tell the figure once it is known, and until then that it
/// is not; both tell the time.
pub proof fn quotes_are_told_once_known(quote: Seq<char>, now: Seq<char>)
    ensures
        shows(price_text(Some(quote), now), "💵 <b>Price:</b> <code>$"@, quote),
        shows(price_text(Some(quote), now), " USD</code> (CoinGecko)\n\n⏱️ <code>"@, now),
        shows(price_text(None, now), "⚠️ <b>Price API Syncing...</b>\n\n⏱️ <code>"@, now),
        shows(market_text(Some(quote), now), "📈 <b>Market Cap:</b> <code>$"@, quote),
        shows(market_text(Some(quote), now), " USD</code> (CoinGecko)\n\n⏱️ <code>"@, now),
        shows(market_text(None, now), "⚠️ <b>Market Cap API Syncing...</b>\n\n⏱️ <code>"@, now),
{
    broadcast use {the_start_is_shown, the_end_is_shown, additions_hide_nothing};

}

/// The list of wallets tells all of them, each on a line of its own, and the time.
pub proof fn portfolios_are_told_whole(wallets: Seq<Seq<char>>, now: Seq<char>)
    ensures
        wallets.len() > 0 ==> shows(
            list_text(wallets, now),
            "📁 <b>Portfolio:</b>\n<code>"@,
            joined(wallets, "\n"@),
        ),
        wallets.len() > 0 ==> shows(list_text(wallets, now), "</code>\n\n⏱️ <code>"@, now),
        wallets.len() == 0 ==> shows(
            list_text(wallets, now),
            "No wallets tracked.\n\n⏱️ <code>"@,
            now,
        ),
{
    broadcast use {the_start_is_shown, the_end_is_shown, additions_hide_nothing};

}

/// The statistics tell the users, the wallets and how long the node took to answer, each behind its
/// own label.
pub proof fn statistics_are_told(users: usize, wallets: usize, ms: u128, now: Seq<char>)
    ensures
        ({
            let on = stats_text(users, wallets, Some(ms), now);
            let off = stats_text(users, wallets, None, now);
            let first =
                "📊 <b>Enterprise Analytics</b>\n━━━━━━━━━━━━━━━━━━\n👥 <b>Active Users:</b> "@;
            &&& shows(on, first, decimal(users as nat))
            &&& shows(off, first, decimal(users as nat))
            &&& shows(on, "\n💼 <b>Tracked Wallets:</b> "@, decimal(wallets as nat))
            &&& shows(off, "\n💼 <b>Tracked Wallets:</b> "@, decimal(wallets as nat))
            &&& shows(
                on,
                "\n🌐 <b>Node Ping:</b> "@,
                "Online 🟢 ("@ + decimal(ms as nat) + "ms)"@,
            )
            &&& shows(off, "\n🌐 <b>Node Ping:</b> "@, "Offline 🔴"@)
            &&& shows(on, "\n\n⏱️ <code>"@, now)
            &&& shows(off, "\n\n⏱️ <code>"@, now)
        }),
{
    broadcast use {the_start_is_shown, the_end_is_shown, additions_hide_nothing};

}

/// Memory is told in mebibytes, rounded down, the part in use before the whole, and then whether
/// wallets are watched.
pub proof fn memory_is_told_in_mebibytes(
    used: u64,
    total: u64,
    a: nat,
    b: nat,
    monitoring: bool,
    now: Seq<char>,
)
    requires
        a * 1048576 <= used < (a + 1) * 1048576,
        b * 1048576 <= total < (b + 1) * 1048576,
    ensures
        ({
            let text = sys_text(used, total, monitoring, now);
            &&& shows(
                text,
                "⚙️ <b>Server Node Diagnostics:</b>\n🧠 <b>RAM Used:</b> <code>"@,
                decimal(a),
            )
            &&& shows(text, " MB</code>\n🧠 <b>RAM Total:</b> <code>"@, decimal(b))
            &&& monitoring ==> shows(text, " MB</code>\n👀 <b>Monitor:</b> <code>"@, "true"@)
            &&& !monitoring ==> shows(text, " MB</code>\n👀 <b>Monitor:</b> <code>"@, "false"@)
            &&& shows(text, "</code>\n\n⏱️ <code>"@, now)
        }),
{
    broadcast use {the_start_is_shown, the_end_is_shown, additions_hide_nothing};

    assert(mebibytes(used) == a);
    assert(mebibytes(total) == b);
}

/// A broadcast is answered with the number of users that it reached.
pub proof fn broadcasts_are_counted(reached: usize)
    ensures
        shows(broadcast_text(reached), "✅ Broadcast sent to "@, decimal(reached as nat)),
{
    broadcast use {the_start_is_shown, additions_hide_nothing};

}

/// The lines that could be read are all that are there.
pub proof fn readable_lines_are_kept(lines: Seq<Option<String>>)
    ensures
        readable(lines) == lines.filter_map(
            |line: Option<String>|
                match line {
                    Some(text) => Some(text@),
                    None => None::<Seq<char>>,
                },
        ),
    decreases lines.len(),
{
    reveal(Seq::filter_map);
    if lines.len() > 0 {
        readable_lines_are_kept(lines.drop_last());
    }
}

/// The log is told from its last twenty-five lines, or from all if there are fewer, in reading
/// order; lines before them are not told.
pub proof fn the_last_lines_are_told(backward: Seq<Option<String>>, older: Seq<Option<String>>)
    ensures
        backward.len() <= 25 ==> shows(
            logs_text(backward),
            "📜 <b>System Logs (Tail):</b>\n<pre>"@,
            joined(readable(backward).reverse(), "\n"@),
        ),
        backward.len() == 25 ==> logs_text(backward + older) == logs_text(backward),
{
    broadcast use {the_start_is_shown, additions_hide_nothing};

    if backward.len() == 25 {
        if older.len() == 0 {
            assert(backward + older =~= backward);
        } else {
            assert((backward + older).take(25) =~= backward);
        }
    }
}

} // verus!
