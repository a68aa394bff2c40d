//! Watching the unspent outputs of wallets: what is new since the last look, what was mined, and
//! the message that tells of it.

use crate::analysis::BlockAnalysis;
use crate::hash::{hash_text_tells_apart, hex, Hash32};
use crate::state::{put_seen, seen_outputs, take_seen, utxo_contents, UtxoState};
use crate::text::{
    additions_hide_nothing, decimal, numbers_are_told_apart, push_decimal, shows, the_end_is_shown,
    the_start_is_shown,
};
use vstd::hash_set::StringHashSet;
use vstd::prelude::*;

verus! {

/// An unspent output of a wallet, as the node lists it.
pub struct Utxo {
    pub tx: Hash32,
    pub index: u32,
    pub amount: u64,
    pub block_daa_score: u64,
    pub is_coinbase: bool,
}

/// An output that came in since the last look.
pub struct Reward {
    pub tx_id: String,
    pub amount: u64,
    pub daa_score: u64,
    pub is_coinbase: bool,
}

/// The view of an incoming output.
pub struct RewardView {
    pub tx_id: Seq<char>,
    pub amount: u64,
    pub daa_score: u64,
    pub is_coinbase: bool,
}

impl View for Reward {
    type V = RewardView;

    open spec fn view(&self) -> RewardView {
        RewardView {
            tx_id: self.tx_id@,
            amount: self.amount,
            daa_score: self.daa_score,
            is_coinbase: self.is_coinbase,
        }
    }
}

pub open spec fn reward_views(rewards: Seq<Reward>) -> Seq<RewardView> {
    Seq::new(rewards.len(), |i: int| rewards[i]@)
}

/// The text by which an output is known: its transaction and its place in it.
pub open spec fn outpoint_id(utxo: Utxo) -> Seq<char> {
    hex(utxo.tx@) + ":"@ + decimal(utxo.index as nat)
}

/// What is told of an output that came in.
pub open spec fn reward_of(utxo: Utxo) -> RewardView {
    RewardView {
        tx_id: hex(utxo.tx@),
        amount: utxo.amount,
        daa_score: utxo.block_daa_score,
        is_coinbase: utxo.is_coinbase,
    }
}

/// The outputs that a listing names.
pub open spec fn outpoint_ids(utxos: Seq<Utxo>) -> Set<Seq<char>> {
    utxos.map_values(|u: Utxo| outpoint_id(u)).to_set()
}

/// The outputs of a listing that were not seen before, in order. An output that is listed twice
/// is new once only.
pub open spec fn unseen(utxos: Seq<Utxo>, seen: Set<Seq<char>>) -> Seq<RewardView>
    decreases utxos.len(),
{
    if utxos.len() == 0 {
        Seq::empty()
    } else {
        let earlier = unseen(utxos.drop_last(), seen);
        let last = utxos.last();
        if seen.contains(outpoint_id(last)) || outpoint_ids(utxos.drop_last()).contains(
            outpoint_id(last),
        ) {
            earlier
        } else {
            earlier.push(reward_of(last))
        }
    }
}

/// What a look at a wallet reports. The first look reports nothing, and so does a look at a
/// wallet that had no outputs at the last one: there is nothing to compare with.
pub open spec fn reported(utxos: Seq<Utxo>, seen: Set<Seq<char>>) -> Seq<RewardView> {
    if seen.is_empty() {
        Seq::empty()
    } else {
        unseen(utxos, seen)
    }
}

fn outpoint_text(utxo: &Utxo) -> (r: String)
    ensures
        r@ == outpoint_id(*utxo),
{
    let mut id = utxo.tx.text();
    id.append(":");
    push_decimal(&mut id, utxo.index as u128);
    id
}

/// One more listed output adds its identifier.
proof fn outpoint_ids_step(utxos: Seq<Utxo>, i: int)
    requires
        0 <= i < utxos.len(),
    ensures
        outpoint_ids(utxos.take(i + 1)) == outpoint_ids(utxos.take(i)).insert(outpoint_id(utxos[i])),
{
    let f = |u: Utxo| outpoint_id(u);
    let before = utxos.take(i).map_values(f);
    let after = utxos.take(i + 1).map_values(f);
    assert(after =~= before.push(outpoint_id(utxos[i])));
    assert forall|x: Seq<char>| after.to_set().contains(x) == before.to_set().insert(outpoint_id(utxos[i])).contains(x) by {
        if before.contains(x) {
            assert(after[before.index_of(x)] == x);
        }
        assert(after[before.len() as int] == outpoint_id(utxos[i]));
        if after.contains(x) && x != outpoint_id(utxos[i]) {
            assert(before[after.index_of(x)] == x);
        }
    }
    assert(after.to_set() =~= before.to_set().insert(outpoint_id(utxos[i])));
}

/// Compares a fresh listing of a wallet's outputs with those seen before, and remembers it.
pub fn compare_listing(seen: StringHashSet, utxos: &Vec<Utxo>) -> (r: (StringHashSet, Vec<Reward>))
    ensures
        r.0@ == outpoint_ids(utxos@),
        reward_views(r.1@) == reported(utxos@, seen@),
{
    let is_first_run = seen.is_empty();
    let mut current = StringHashSet::new();
    let mut rewards: Vec<Reward> = Vec::new();
    let mut i: usize = 0;
    proof {
        assert(utxos@.take(0) =~= seq![]);
        assert(outpoint_ids(seq![]) =~= Set::empty());
        assert(reward_views(rewards@) =~= seq![]);
    }
    while i < utxos.len()
        invariant
            i <= utxos.len(),
            is_first_run == seen@.is_empty(),
            current@ == outpoint_ids(utxos@.take(i as int)),
            reward_views(rewards@) == (if is_first_run {
                Seq::empty()
            } else {
                unseen(utxos@.take(i as int), seen@)
            }),
        decreases utxos.len() - i,
    {
        let ghost before = rewards@;
        let utxo = &utxos[i];
        let id = outpoint_text(utxo);
        let known = seen.contains(id.as_str());
        let fresh = current.insert(id);
        proof {
            outpoint_ids_step(utxos@, i as int);
            assert(utxos@.take(i + 1).drop_last() =~= utxos@.take(i as int));
        }
        if !is_first_run && !known && fresh {
            rewards.push(
                Reward {
                    tx_id: utxo.tx.text(),
                    amount: utxo.amount,
                    daa_score: utxo.block_daa_score,
                    is_coinbase: utxo.is_coinbase,
                },
            );
            assert(reward_views(rewards@) =~= reward_views(before).push(reward_of(*utxo)));
        }
        i += 1;
    }
    assert(utxos@.take(i as int) =~= utxos@);
    (current, rewards)
}

/// A look at a wallet: reports what came in since the last look, and remembers what is there.
pub fn poll_wallet(record: &mut UtxoState, wallet: &str, utxos: &Vec<Utxo>) -> (rewards: Vec<Reward>)
    ensures
        reward_views(rewards@) == reported(utxos@, seen_outputs(utxo_contents(*old(record)), wallet@)),
        utxo_contents(*final(record)) == utxo_contents(*old(record)).insert(
            wallet@,
            outpoint_ids(utxos@),
        ),
{
    let ghost start = utxo_contents(*record);
    let seen = take_seen(record, wallet);
    let (current, rewards) = compare_listing(seen, utxos);
    put_seen(record, wallet, current);
    assert(utxo_contents(*record) =~= start.insert(wallet@, outpoint_ids(utxos@)));
    rewards
}

/// A look that lists only what was seen before reports nothing: no output is told of twice.
pub proof fn nothing_is_reported_twice(utxos: Seq<Utxo>, seen: Set<Seq<char>>)
    requires
        outpoint_ids(utxos).subset_of(seen),
    ensures
        reported(utxos, seen) == Seq::<RewardView>::empty(),
    decreases utxos.len(),
{
    if utxos.len() > 0 {
        let front = utxos.drop_last();
        outpoint_ids_step(utxos, utxos.len() - 1);
        assert(utxos.take(utxos.len() as int) =~= utxos);
        assert(utxos.take(utxos.len() - 1) =~= front);
        nothing_is_reported_twice(front, seen);
        assert(outpoint_ids(utxos).contains(outpoint_id(utxos.last())));
    }
}

/// Two looks with the same listing: the second reports nothing.
pub proof fn second_look_reports_nothing(utxos: Seq<Utxo>)
    ensures
        reported(utxos, outpoint_ids(utxos)) == Seq::<RewardView>::empty(),
{
    nothing_is_reported_twice(utxos, outpoint_ids(utxos));
}

/// Whatever a look tells of is listed, and was not on record.
pub proof fn reported_outputs_are_new(utxos: Seq<Utxo>, seen: Set<Seq<char>>, k: int)
    requires
        0 <= k < reported(utxos, seen).len(),
    ensures
        exists|i: int|
            0 <= i < utxos.len() && reported(utxos, seen)[k] == reward_of(#[trigger] utxos[i])
                && !seen.contains(outpoint_id(utxos[i])),
    decreases utxos.len(),
{
    let front = utxos.drop_last();
    let last = utxos.len() - 1;
    if k < unseen(front, seen).len() {
        reported_outputs_are_new(front, seen, k);
        let i = choose|i: int|
            0 <= i < front.len() && reported(front, seen)[k] == reward_of(#[trigger] front[i])
                && !seen.contains(outpoint_id(front[i]));
        assert(utxos[i] == front[i]);
    } else {
        assert(reported(utxos, seen)[k] == reward_of(utxos[last]));
    }
}

/// Once a wallet has outputs on record, every output of a later listing that is not on record is
/// told of.
pub proof fn new_outputs_are_reported(utxos: Seq<Utxo>, seen: Set<Seq<char>>, i: int)
    requires
        !seen.is_empty(),
        0 <= i < utxos.len(),
        !seen.contains(outpoint_id(utxos[i])),
        forall|j: int| 0 <= j < i ==> outpoint_id(#[trigger] utxos[j]) != outpoint_id(utxos[i]),
    ensures
        reported(utxos, seen).contains(reward_of(utxos[i])),
    decreases utxos.len(),
{
    let front = utxos.drop_last();
    if i == utxos.len() - 1 {
        assert(!outpoint_ids(front).contains(outpoint_id(utxos.last()))) by {
            let listed = front.map_values(|u: Utxo| outpoint_id(u));
            if outpoint_ids(front).contains(outpoint_id(utxos.last())) {
                let j = listed.index_of(outpoint_id(utxos.last()));
                assert(outpoint_id(utxos[j]) == outpoint_id(utxos[i]));
            }
        }
        assert(reported(utxos, seen) == unseen(front, seen).push(reward_of(utxos.last())));
        assert(reported(utxos, seen)[unseen(front, seen).len() as int] == reward_of(utxos[i]));
    } else {
        new_outputs_are_reported(front, seen, i);
        let k = unseen(front, seen).index_of(reward_of(utxos[i]));
        assert(reported(utxos, seen)[k] == reward_of(utxos[i]));
    }
}

/// What goes into a message beside the findings, ready to print.
pub struct RewardPage {
    pub time: String,
    pub wallet: String,
    pub short_wallet: String,
    pub amount: String,
    pub balance: String,
    /// A link to the transaction.
    pub tx_link: String,
    /// A link to the accepting block; not used if there is none.
    pub accepting_link: String,
    /// A link to each mined block, in their order.
    pub mined_links: Vec<String>,
}

pub open spec fn header_text(is_coinbase: bool) -> Seq<char> {
    if is_coinbase {
        "⚡ <b>Native Node Reward!</b> 💎"@
    } else {
        "💸 <b>Incoming Transfer!</b> 💸"@
    }
}

fn header_word(is_coinbase: bool) -> (r: &'static str)
    ensures
        r@ == header_text(is_coinbase),
{
    if is_coinbase {
        "⚡ <b>Native Node Reward!</b> 💎"
    } else {
        "💸 <b>Incoming Transfer!</b> 💸"
    }
}

/// One line for each link.
pub open spec fn link_lines(prefix: Seq<char>, links: Seq<String>) -> Seq<char>
    decreases links.len(),
{
    if links.len() == 0 {
        prefix
    } else {
        link_lines(prefix, links.drop_last()) + "\n ├ "@ + links.last()@
    }
}

/// The mined blocks: a hint if none is known, the link of a single one, or their number and a
/// line for each.
pub open spec fn mined_text(links: Seq<String>) -> Seq<char> {
    if links.len() == 0 {
        "<code>Not Found (Unknown Miner)</code>"@
    } else if links.len() == 1 {
        links[0]@
    } else {
        link_lines(decimal(links.len() as nat)
            + " Blocks!"@, links)
    }
}

fn describe_mined(links: &Vec<String>) -> (r: String)
    ensures
        r@ == mined_text(links@),
{
    if links.len() == 0 {
        return "<code>Not Found (Unknown Miner)</code>".to_owned();
    }
    if links.len() == 1 {
        return links[0].clone();
    }
    let mut out = String::new();
    push_decimal(&mut out, links.len() as u128);
    out.append(" Blocks!");
    let ghost prefix = out@;
    let mut i: usize = 0;
    while i < links.len()
        invariant
            i <= links.len(),
            out@ == link_lines(prefix, links@.take(i as int)),
        decreases links.len() - i,
    {
        assert(links@.take(i + 1).drop_last() =~= links@.take(i as int));
        out.append("\n ├ ");
        out.append(links[i].as_str());
        i += 1;
    }
    assert(links@.take(i as int) =~= links@);
    out
}

/// The link of the accepting block, or a hint if it was not found.
pub open spec fn accepting_text(analysis: BlockAnalysis, page: RewardPage) -> Seq<char> {
    if analysis.accepting_block@.len() == 0 {
        "<code>Not Found (Archived)</code>"@
    } else {
        page.accepting_link@
    }
}

/// The message that tells of an incoming output.
pub open spec fn reward_text(reward: Reward, analysis: BlockAnalysis, page: RewardPage) -> Seq<char> {
    let head = header_text(reward.is_coinbase)
        + "\n━━━━━━━━━━━━━━━━━━\n<b>Time:</b> <code>"@
        + page.time@
        + "</code>\n<b>Wallet:</b> <a href=\"https://kaspa.stream/addresses/"@
        + page.wallet@
        + "\">"@
        + page.short_wallet@
        + "</a>\n<b>Amount:</b> <code>+"@
        + page.amount@
        + " KAS</code>\n<b>Balance:</b> <code>"@
        + page.balance@
        + " KAS</code>\n<blockquote expandable><b>TXID:</b> "@
        + page.tx_link@
        + "\n"@;
    let origin = if reward.is_coinbase {
        let blocks = head
            + "<b>Mined Block(s):</b> "@
            + mined_text(page.mined_links@)
            + "\n<b>Accepting Block:</b> "@
            + accepting_text(analysis, page)
            + "\n"@;
        if analysis.nonce@.len() == 0 {
            blocks
        } else {
            blocks
                + "<b>Nonce:</b> <code>"@
                + analysis.nonce@
                + "</code>\n<b>Worker:</b> <code>"@
                + analysis.worker@
                + "</code>\n"@
        }
    } else {
        head
            + "<b>Type:</b> 💳 Normal Transfer\n<b>Accepting Block:</b> "@
            + accepting_text(analysis, page)
            + "\n"@
    };
    origin
        + "<b>DAA Score:</b> <code>"@
        + decimal(reward.daa_score as nat)
        + "</code>\n</blockquote>"@
}

/// Writes the message that tells of an incoming output. There is one link for each mined block
/// that was found.
pub fn reward_message(reward: &Reward, analysis: &BlockAnalysis, page: &RewardPage) -> (r: String)
    requires
        page.mined_links@.len() == analysis.mined_blocks@.len(),
    ensures
        r@ == reward_text(*reward, *analysis, *page),
{
    let accepting = if analysis.accepting_block.as_str().is_empty() {
        "<code>Not Found (Archived)</code>"
    } else {
        page.accepting_link.as_str()
    };
    let mut out = header_word(reward.is_coinbase).to_owned();
    out.append("\n━━━━━━━━━━━━━━━━━━\n<b>Time:</b> <code>");
    out.append(page.time.as_str());
    out.append("</code>\n<b>Wallet:</b> <a href=\"https://kaspa.stream/addresses/");
    out.append(page.wallet.as_str());
    out.append("\">");
    out.append(page.short_wallet.as_str());
    out.append("</a>\n<b>Amount:</b> <code>+");
    out.append(page.amount.as_str());
    out.append(" KAS</code>\n<b>Balance:</b> <code>");
    out.append(page.balance.as_str());
    out.append(" KAS</code>\n<blockquote expandable><b>TXID:</b> ");
    out.append(page.tx_link.as_str());
    out.append("\n");
    if reward.is_coinbase {
        let mined = describe_mined(&page.mined_links);
        out.append("<b>Mined Block(s):</b> ");
        out.append(mined.as_str());
        out.append("\n<b>Accepting Block:</b> ");
        out.append(accepting);
        out.append("\n");
        if !analysis.nonce.as_str().is_empty() {
            out.append("<b>Nonce:</b> <code>");
            out.append(analysis.nonce.as_str());
            out.append("</code>\n<b>Worker:</b> <code>");
            out.append(analysis.worker.as_str());
            out.append("</code>\n");
        }
    } else {
        out.append("<b>Type:</b> 💳 Normal Transfer\n<b>Accepting Block:</b> ");
        out.append(accepting);
        out.append("\n");
    }
    out.append("<b>DAA Score:</b> <code>");
    push_decimal(&mut out, reward.daa_score as u128);
    out.append("</code>\n</blockquote>");
    out
}

// ---- What makes an output new

/// Two outputs are the same output: their transaction and their place in it are the same.
pub open spec fn same_output(a: Utxo, b: Utxo) -> bool {
    a.tx@ == b.tx@ && a.index == b.index
}

/// Outputs have the same text exactly if they are the same output, whatever else is told of them.
pub proof fn outputs_are_told_apart(a: Utxo, b: Utxo)
    ensures
        outpoint_id(a) == outpoint_id(b) <==> same_output(a, b),
{
    if outpoint_id(a) == outpoint_id(b) {
        reveal_strlit(":");
        let x = outpoint_id(a);
        let y = outpoint_id(b);
        assert(a.tx@.len() == 32 && b.tx@.len() == 32);
        assert(hex(a.tx@).len() == 64 && hex(b.tx@).len() == 64);
        assert(x.take(64) =~= hex(a.tx@));
        assert(y.take(64) =~= hex(b.tx@));
        hash_text_tells_apart(a.tx@, b.tx@);
        assert(":"@.len() == 1);
        assert(x.skip(65) =~= decimal(a.index as nat));
        assert(y.skip(65) =~= decimal(b.index as nat));
        numbers_are_told_apart(a.index as nat, b.index as nat);
    }
}

/// Whether a listing has an output.
pub open spec fn lists_output(utxos: Seq<Utxo>, output: Utxo) -> bool {
    exists|i: int| 0 <= i < utxos.len() && same_output(#[trigger] utxos[i], output)
}

/// The texts of a listing are those of its outputs.
pub proof fn listings_have_the_texts_of_their_outputs(utxos: Seq<Utxo>, output: Utxo)
    ensures
        outpoint_ids(utxos).contains(outpoint_id(output)) <==> lists_output(utxos, output),
{
    let ids = utxos.map_values(|u: Utxo| outpoint_id(u));
    if outpoint_ids(utxos).contains(outpoint_id(output)) {
        let i = ids.index_of(outpoint_id(output));
        assert(ids[i] == outpoint_id(utxos[i]));
        outputs_are_told_apart(utxos[i], output);
    }
    if lists_output(utxos, output) {
        let i = choose|i: int| 0 <= i < utxos.len() && same_output(#[trigger] utxos[i], output);
        outputs_are_told_apart(utxos[i], output);
        assert(ids[i] == outpoint_id(output));
    }
}

/// Whether an output of a later listing is new: it is not in the earlier listing, and not before
/// itself in the later one.
pub open spec fn is_new(earlier: Seq<Utxo>, later: Seq<Utxo>, i: int) -> bool {
    !lists_output(earlier, later[i]) && !lists_output(later.take(i), later[i])
}

/// What is told of an output.
pub open spec fn told_of(output: Utxo) -> RewardView {
    RewardView {
        tx_id: hex(output.tx@),
        amount: output.amount,
        daa_score: output.block_daa_score,
        is_coinbase: output.is_coinbase,
    }
}

/// What a look tells, after an earlier look that listed something: of each output that is new, of
/// all of them, in order, and of nothing else.
pub proof fn looks_tell_of_all_new_outputs(earlier: Seq<Utxo>, later: Seq<Utxo>)
    requires
        earlier.len() > 0,
    ensures
        reported(later, outpoint_ids(earlier)) == Seq::new(later.len(), |i: int| i).filter(
            |i: int| is_new(earlier, later, i),
        ).map_values(|i: int| told_of(later[i])),
{
    listings_have_the_texts_of_their_outputs(earlier, earlier[0]);
    assert(lists_output(earlier, earlier[0]));
    assert(outpoint_ids(earlier).contains(outpoint_id(earlier[0])));
    new_outputs_up_to(earlier, later, later.len() as int);
    assert(later.take(later.len() as int) =~= later);
    assert(!outpoint_ids(earlier).is_empty());
}

proof fn new_outputs_up_to(earlier: Seq<Utxo>, later: Seq<Utxo>, n: int)
    requires
        0 <= n <= later.len(),
    ensures
        unseen(later.take(n), outpoint_ids(earlier)) == Seq::new(n as nat, |i: int| i).filter(
            |i: int| is_new(earlier, later, i),
        ).map_values(|i: int| told_of(later[i])),
    decreases n,
{
    let fresh = |i: int| is_new(earlier, later, i);
    let tell = |i: int| told_of(later[i]);
    let places = Seq::new(n as nat, |i: int| i);
    reveal(Seq::filter);
    if n > 0 {
        let before = Seq::new((n - 1) as nat, |i: int| i);
        new_outputs_up_to(earlier, later, n - 1);
        assert(places.drop_last() =~= before);
        assert(later.take(n).drop_last() =~= later.take(n - 1));
        let last = later[n - 1];
        listings_have_the_texts_of_their_outputs(earlier, last);
        listings_have_the_texts_of_their_outputs(later.take(n - 1), last);
        let kept = before.filter(fresh);
        if fresh(n - 1) {
            assert(kept.push(n - 1).map_values(tell) =~= kept.map_values(tell).push(told_of(last)));
        }
    }
    assert(unseen(later.take(n), outpoint_ids(earlier)) =~= places.filter(fresh).map_values(tell));
}

/// The first look at a wallet tells of nothing, and neither does one after a look that listed
/// nothing.
pub proof fn looks_compare_with_a_listing(later: Seq<Utxo>)
    ensures
        reported(later, outpoint_ids(Seq::empty())) == Seq::<RewardView>::empty(),
        reported(later, Set::empty()) == Seq::<RewardView>::empty(),
{
    assert(outpoint_ids(Seq::empty()) =~= Set::empty());
}

// ---- What a message tells

/// A single link is told as it is; of several, the number is told and then each link, one after
/// another and on a line of its own.
pub proof fn every_link_is_told(links: Seq<String>, link: String)
    ensures
        mined_text(seq![link]) == link@,
        links.len() == 1 ==> mined_text(links.push(link)) == "2"@ + " Blocks!"@ + "\n ├ "@ + links[0]@
            + "\n ├ "@ + link@,
        link_lines(Seq::empty(), Seq::empty()) == Seq::<char>::empty(),
        links.len() > 0 ==> mined_text(links.push(link)) == decimal(links.len() + 1) + " Blocks!"@
            + link_lines(Seq::empty(), links) + "\n ├ "@ + link@,
{
    let all = links.push(link);
    let head = decimal(all.len() as nat) + " Blocks!"@;
    assert(all.drop_last() =~= links);
    lines_follow_the_heading(head, links);
    if links.len() == 1 {
        reveal_with_fuel(link_lines, 3);
        reveal_strlit("2");
        assert(links.drop_last() =~= Seq::empty());
        assert(decimal(2) =~= "2"@);
    }
    if links.len() > 0 {
        assert(mined_text(all) =~= head + link_lines(Seq::empty(), links) + "\n ├ "@ + link@);
    }
}

proof fn lines_follow_the_heading(head: Seq<char>, links: Seq<String>)
    ensures
        link_lines(head, links) == head + link_lines(Seq::empty(), links),
    decreases links.len(),
{
    if links.len() > 0 {
        lines_follow_the_heading(head, links.drop_last());
        assert(link_lines(head, links) =~= head + link_lines(Seq::empty(), links));
    } else {
        assert(link_lines(head, links) =~= head + link_lines(Seq::empty(), links));
    }
}

/// The lines of links go on from one another: no link is left out, and their order is kept.
pub proof fn lines_of_links_go_on(left: Seq<String>, right: Seq<String>)
    ensures
        link_lines(Seq::empty(), left + right) == link_lines(Seq::empty(), left) + link_lines(
            Seq::empty(),
            right,
        ),
    decreases right.len(),
{
    if right.len() == 0 {
        assert(left + right =~= left);
    } else {
        assert((left + right).drop_last() =~= left + right.drop_last());
        lines_of_links_go_on(left, right.drop_last());
    }
    assert(link_lines(Seq::empty(), left + right) =~= link_lines(Seq::empty(), left) + link_lines(
        Seq::empty(),
        right,
    ));
}

/// Every message tells when, for which wallet, how much and in which transaction, and the score.
pub proof fn messages_tell_of_the_output(reward: Reward, analysis: BlockAnalysis, page: RewardPage)
    ensures
        ({
            let text = reward_text(reward, analysis, page);
            &&& shows(text, "\n━━━━━━━━━━━━━━━━━━\n<b>Time:</b> <code>"@, page.time@)
            &&& shows(
                text,
                "</code>\n<b>Wallet:</b> <a href=\"https://kaspa.stream/addresses/"@,
                page.wallet@,
            )
            &&& shows(text, "\">"@, page.short_wallet@)
            &&& shows(text, "</a>\n<b>Amount:</b> <code>+"@, page.amount@)
            &&& shows(text, " KAS</code>\n<b>Balance:</b> <code>"@, page.balance@)
            &&& shows(text, " KAS</code>\n<blockquote expandable><b>TXID:</b> "@, page.tx_link@)
            &&& shows(text, "<b>DAA Score:</b> <code>"@, decimal(reward.daa_score as nat))
        }),
{
    broadcast use {the_end_is_shown, additions_hide_nothing};

}

/// The message of a mined output says so, and tells of all mined blocks, of the accepting block,
/// and of the worker with its nonce, as far as they were found.
pub proof fn messages_tell_of_the_miner(reward: Reward, analysis: BlockAnalysis, page: RewardPage)
    requires
        reward.is_coinbase,
    ensures
        ({
            let text = reward_text(reward, analysis, page);
            &&& shows(text, Seq::empty(), "⚡ <b>Native Node Reward!</b> 💎"@)
            &&& shows(text, "<b>Mined Block(s):</b> "@, mined_text(page.mined_links@))
            &&& analysis.accepting_block@.len() > 0 ==> shows(
                text,
                "\n<b>Accepting Block:</b> "@,
                page.accepting_link@,
            )
            &&& analysis.accepting_block@.len() == 0 ==> shows(
                text,
                "\n<b>Accepting Block:</b> "@,
                "<code>Not Found (Archived)</code>"@,
            )
            &&& analysis.nonce@.len() > 0 ==> shows(text, "<b>Nonce:</b> <code>"@, analysis.nonce@)
            &&& analysis.nonce@.len() > 0 ==> shows(
                text,
                "</code>\n<b>Worker:</b> <code>"@,
                analysis.worker@,
            )
        }),
{
    broadcast use {the_end_is_shown, additions_hide_nothing};

    the_start_is_shown(Seq::empty(), header_text(true));
    assert(Seq::empty().add(header_text(true)) =~= header_text(true));
}

/// The message of a transfer says so, and tells of the accepting block, as far as it was found.
pub proof fn messages_tell_of_the_transfer(reward: Reward, analysis: BlockAnalysis, page: RewardPage)
    requires
        !reward.is_coinbase,
    ensures
        ({
            let text = reward_text(reward, analysis, page);
            let label = "<b>Type:</b> 💳 Normal Transfer\n<b>Accepting Block:</b> "@;
            &&& shows(text, Seq::empty(), "💸 <b>Incoming Transfer!</b> 💸"@)
            &&& analysis.accepting_block@.len() > 0 ==> shows(text, label, page.accepting_link@)
            &&& analysis.accepting_block@.len() == 0 ==> shows(
                text,
                label,
                "<code>Not Found (Archived)</code>"@,
            )
        }),
{
    broadcast use {the_end_is_shown, additions_hide_nothing};

    the_start_is_shown(Seq::empty(), header_text(false));
    assert(Seq::empty().add(header_text(false)) =~= header_text(false));
}

/// Incoming outputs are viewed one by one, with all that is told of them, and none is left out.
pub proof fn rewards_are_viewed_one_by_one(rewards: Seq<Reward>, i: int)
    ensures
        reward_views(rewards).len() == rewards.len(),
        0 <= i < rewards.len() ==> {
            &&& reward_views(rewards)[i].tx_id == rewards[i].tx_id@
            &&& reward_views(rewards)[i].amount == rewards[i].amount
            &&& reward_views(rewards)[i].daa_score == rewards[i].daa_score
            &&& reward_views(rewards)[i].is_coinbase == rewards[i].is_coinbase
        },
{
}

} // verus!
