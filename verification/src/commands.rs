//! The commands of the bot: what each of them changes, what it answers at once, and what has to
//! be fetched before it can be answered.

use crate::address::{accepts_address, complete_address, full_address, is_address};
use crate::context::{watched, AppContext};
use crate::reply::{plain, plain_reply, refreshable, Markup, MarkupView, Reply, ReplyView};
use crate::reports::{list_reply, list_text};
use crate::state::{
    add_wallet_to_db, audience, copy_chats, deletion, executed, insertion, lists_audience, lists_tracked,
    remove_wallet_from_db, rows_of, subscribe, subscribed, tracked_wallets, trackers, unsubscribe,
    unsubscribed, wallet_count, Book, Statement, StatementView, Table,
};
use crate::text::{same_text, texts};
use vstd::prelude::*;

verus! {

/// The commands of the bot.
#[derive(Clone, Debug, PartialEq, Eq)]
pub enum Command {
    /// Start the bot and show help.
    Start,
    /// Add a wallet.
    Add(String),
    /// Remove a wallet.
    Remove(String),
    /// List the wallets of the chat.
    List,
    /// Show full node and network stats.
    Network,
    /// Show BlockDAG details.
    Dag,
    /// Check live balance and outputs.
    Balance,
    /// Estimate the solo-mining hashrate.
    Miner,
    /// Count the unspent mined blocks.
    Blocks,
    /// Check the price.
    Price,
    /// Check the market capitalisation.
    Market,
    /// Check the supply.
    Supply,
    /// Check the mempool fees.
    Fees,
    /// Usage figures, for the admin.
    Stats,
    /// Server diagnostics, for the admin.
    Sys,
    /// Stop monitoring, for the admin.
    Pause,
    /// Go on monitoring, for the admin.
    Resume,
    /// End the process, for the admin.
    Restart,
    /// Send a text to all users, for the admin.
    Broadcast(String),
    /// Show the end of the log, for the admin.
    Logs,
    /// Support the developer.
    Donate,
}

/// What has to be fetched before a command can be answered.
pub enum Query {
    /// The outputs of these wallets, for a balance.
    Balance(Vec<String>),
    /// The outputs of these wallets, for their mined blocks.
    Blocks(Vec<String>),
    /// The outputs of these wallets and the hashrate of the network, for an estimate.
    Miner(Vec<String>),
    /// The state of the node, with a block template that pays to this address.
    Network(String),
    Dag,
    Price,
    Market,
    Supply,
    Fees,
    /// How fast the node answers; the counts are known.
    Stats { users: usize, wallets: usize },
    /// The memory of the server; whether the bot monitors is known.
    Sys(bool),
    /// Nothing: this text goes to these users, and the successes are counted.
    Broadcast { recipients: Vec<i64>, text: String },
    /// The end of the log.
    Logs,
}

/// One thing that a command brings about. They come in the order in which they are done.
pub enum Effect {
    Send(Reply),
    Store(Statement),
    Fetch(Query),
    /// The process ends.
    Exit,
}

/// The view of a query.
pub enum QueryView {
    Balance(Seq<Seq<char>>),
    Blocks(Seq<Seq<char>>),
    Miner(Seq<Seq<char>>),
    Network(Seq<char>),
    Dag,
    Price,
    Market,
    Supply,
    Fees,
    Stats { users: usize, wallets: usize },
    Sys(bool),
    Broadcast { recipients: Seq<i64>, text: Seq<char> },
    Logs,
}

/// The view of an effect.
pub enum EffectView {
    Send(ReplyView),
    Store(StatementView),
    Fetch(QueryView),
    Exit,
}

impl View for Query {
    type V = QueryView;

    open spec fn view(&self) -> QueryView {
        match self {
            Query::Balance(w) => QueryView::Balance(texts(w@)),
            Query::Blocks(w) => QueryView::Blocks(texts(w@)),
            Query::Miner(w) => QueryView::Miner(texts(w@)),
            Query::Network(a) => QueryView::Network(a@),
            Query::Dag => QueryView::Dag,
            Query::Price => QueryView::Price,
            Query::Market => QueryView::Market,
            Query::Supply => QueryView::Supply,
            Query::Fees => QueryView::Fees,
            Query::Stats { users, wallets } => QueryView::Stats { users: *users, wallets: *wallets },
            Query::Sys(m) => QueryView::Sys(*m),
            Query::Broadcast { recipients, text } => QueryView::Broadcast {
                recipients: recipients@,
                text: text@,
            },
            Query::Logs => QueryView::Logs,
        }
    }
}

impl View for Effect {
    type V = EffectView;

    open spec fn view(&self) -> EffectView {
        match self {
            Effect::Send(r) => EffectView::Send(r@),
            Effect::Store(s) => EffectView::Store(s@),
            Effect::Fetch(q) => EffectView::Fetch(q@),
            Effect::Exit => EffectView::Exit,
        }
    }
}

pub open spec fn effect_views(effects: Seq<Effect>) -> Seq<EffectView> {
    Seq::new(effects.len(), |i: int| effects[i]@)
}

/// The first message of a conversation.
pub open spec fn sync_text() -> Seq<char> {
    "🔄 Syncing Enterprise UI..."@
}

/// The help.
pub open spec fn help_text() -> Seq<char> {
    "🤖 <b>Kaspa Enterprise Command Center</b>\n━━━━━━━━━━━━━━━━━━\nWelcome! This system provides secure, real-time Kaspa wallet monitoring directly via a private node.\n\n📌 <b>Public Commands:</b>\n<code>/add &lt;address&gt;</code> - Track a wallet\n<code>/remove &lt;address&gt;</code> - Stop tracking\n<code>/balance</code> - Check live balances & UTXOs\n<code>/blocks</code> - Count unspent mined blocks\n<code>/miner</code> - Estimate Hashrate\n<code>/network</code> - Node & Mining Stats\n\n👑 <b>Admin Commands:</b>\n<code>/sys</code> - Server Diagnostics\n<code>/pause</code> - Disconnect Engine\n<code>/resume</code> - Reconnect Engine\n<code>/restart</code> - Reboot Process"@
}

/// The appeal for donations.
pub open spec fn donate_text() -> Seq<char> {
    "❤️ <b>Support & Donate</b>\nIf you find this bot valuable, consider supporting its development!\n\n<b>Kaspa (KAS) Address:</b>\n<code>kaspa:qz0yqq8z3twwgg7lq2mjzg6w4edqys45w2wslz7tym2tc6s84580vvx9zr44g</code>"@
}

pub open spec fn limit_text() -> Seq<char> {
    "⚠️ <b>Security Limit Reached!</b>\nStandard users can only track up to 5 wallets."@
}

pub open spec fn tracking_text(wallet: Seq<char>) -> Seq<char> {
    "✅ <b>Tracking Enabled:</b>\n<code>"@
        + wallet
        + "</code>"@
}

pub open spec fn invalid_text() -> Seq<char> {
    "❌ <b>Invalid Format!</b>\nPlease provide a valid Kaspa address."@
}

pub open spec fn removed_text() -> Seq<char> {
    "🗑️ <b>Wallet Removed.</b>"@
}

pub open spec fn broadcast_message(message: Seq<char>) -> Seq<char> {
    "📢 <b>Admin Broadcast:</b>\n\n"@
        + message
}

/// The address that a block template is asked for with, to see whether the node can mine.
pub open spec fn template_address() -> Seq<char> {
    "kaspa:qq2avyvncscg5dtsk8u4uwjhlr3799dhaqj8k9y6q5y9hpwfxjy6u00pep7vg"@
}

/// How many wallets a chat may track, unless the admin adds them.
pub const WALLET_LIMIT: usize = 5;

/// Those of the wallets that are addresses.
pub open spec fn reachable(wallets: Seq<Seq<char>>) -> Seq<Seq<char>> {
    wallets.filter(|w: Seq<char>| is_address(w))
}

/// Whether a request to track a wallet is granted.
pub open spec fn grants(wallet: Seq<char>, is_admin: bool, mine: nat) -> bool {
    is_address(full_address(wallet)) && (is_admin || mine < WALLET_LIMIT)
}

/// What a command brings about, given the wallets that the chat tracks, all chats that track
/// anything, and the number of wallets in the book.
pub open spec fn command_effects(
    cmd: Command,
    chat_id: i64,
    is_admin: bool,
    now: Seq<char>,
    edit: Option<i32>,
    mine: Seq<Seq<char>>,
    users: Seq<i64>,
    wallets: usize,
    monitoring: bool,
) -> Seq<EffectView> {
    match cmd {
        Command::Start => seq![
            EffectView::Send(
                ReplyView { text: sync_text(), edit: None, markup: MarkupView::RemoveKeyboard },
            ),
            EffectView::Send(ReplyView { text: help_text(), edit: None, markup: MarkupView::MainMenu }),
        ],
        Command::Add(w) => if grants(w@, is_admin, mine.len()) {
            seq![
                EffectView::Store(insertion(full_address(w@), chat_id)),
                EffectView::Send(plain(tracking_text(full_address(w@)))),
            ]
        } else if is_address(full_address(w@)) {
            seq![EffectView::Send(plain(limit_text()))]
        } else {
            seq![EffectView::Send(plain(invalid_text()))]
        },
        Command::Remove(w) => seq![
            EffectView::Store(deletion(full_address(w@), chat_id)),
            EffectView::Send(plain(removed_text())),
        ],
        Command::List => seq![
            EffectView::Send(refreshable(list_text(mine, now), edit, "refresh_list"@)),
        ],
        Command::Balance => seq![EffectView::Fetch(QueryView::Balance(reachable(mine)))],
        Command::Blocks => if mine.len() == 0 {
            seq![
                EffectView::Send(
                    ReplyView {
                        text: "⚠️ <b>No wallets tracked.</b>"@,
                        edit,
                        markup: MarkupView::Plain,
                    },
                ),
            ]
        } else {
            seq![EffectView::Fetch(QueryView::Blocks(reachable(mine)))]
        },
        Command::Miner => if mine.len() == 0 {
            seq![]
        } else {
            seq![EffectView::Fetch(QueryView::Miner(reachable(mine)))]
        },
        Command::Network => seq![EffectView::Fetch(QueryView::Network(template_address()))],
        Command::Dag => seq![EffectView::Fetch(QueryView::Dag)],
        Command::Price => seq![EffectView::Fetch(QueryView::Price)],
        Command::Market => seq![EffectView::Fetch(QueryView::Market)],
        Command::Supply => seq![EffectView::Fetch(QueryView::Supply)],
        Command::Fees => seq![EffectView::Fetch(QueryView::Fees)],
        Command::Donate => seq![EffectView::Send(plain(donate_text()))],
        _ => if is_admin {
            admin_effects(cmd, users, wallets, monitoring)
        } else {
            seq![]
        },
    }
}

/// What a command for the admin brings about.
pub open spec fn admin_effects(
    cmd: Command,
    users: Seq<i64>,
    wallets: usize,
    monitoring: bool,
) -> Seq<EffectView> {
    match cmd {
        Command::Stats => seq![
            EffectView::Fetch(QueryView::Stats { users: users.len() as usize, wallets }),
        ],
        Command::Sys => seq![EffectView::Fetch(QueryView::Sys(monitoring))],
        Command::Pause => seq![EffectView::Send(plain("⏸️ <b>Monitoring Paused.</b>"@))],
        Command::Resume => seq![EffectView::Send(plain("▶️ <b>Monitoring Active.</b>"@))],
        Command::Restart => seq![
            EffectView::Send(plain("🔄 <b>Restarting safely...</b>"@)),
            EffectView::Exit,
        ],
        Command::Broadcast(m) => seq![
            EffectView::Fetch(
                QueryView::Broadcast { recipients: users, text: broadcast_message(m@) },
            ),
        ],
        Command::Logs => seq![EffectView::Fetch(QueryView::Logs)],
        _ => seq![],
    }
}

/// The effects are those of the command, with the wallets and the users named in some order.
pub open spec fn answers(
    effects: Seq<EffectView>,
    book: Book,
    monitoring: bool,
    cmd: Command,
    chat_id: i64,
    is_admin: bool,
    now: Seq<char>,
    edit: Option<i32>,
) -> bool {
    exists|mine: Seq<Seq<char>>, users: Seq<i64>|
        #![trigger lists_tracked(mine, book, chat_id), lists_audience(users, book)]
        lists_tracked(mine, book, chat_id) && lists_audience(users, book) && effects == command_effects(
            cmd,
            chat_id,
            is_admin,
            now,
            edit,
            mine,
            users,
            book.dom().len() as usize,
            monitoring,
        )
}

/// The commands that only the admin can use.
pub open spec fn is_admin_command(cmd: Command) -> bool {
    ||| cmd is Stats
    ||| cmd is Sys
    ||| cmd is Pause
    ||| cmd is Resume
    ||| cmd is Restart
    ||| cmd is Broadcast
    ||| cmd is Logs
}

/// The wallets that a chat tracks.
pub open spec fn tracked_set(book: Book, chat_id: i64) -> Set<Seq<char>> {
    Set::new(|w: Seq<char>| trackers(book, w).contains(chat_id))
}

/// The book after a command.
pub open spec fn book_after(book: Book, cmd: Command, chat_id: i64, is_admin: bool) -> Book {
    match cmd {
        Command::Add(w) => if grants(w@, is_admin, tracked_set(book, chat_id).len()) {
            subscribed(book, full_address(w@), chat_id)
        } else {
            book
        },
        Command::Remove(w) => unsubscribed(book, full_address(w@), chat_id),
        _ => book,
    }
}

/// Whether the bot monitors after a command.
pub open spec fn monitoring_after(monitoring: bool, cmd: Command, is_admin: bool) -> bool {
    match cmd {
        Command::Pause => monitoring && !is_admin,
        Command::Resume => monitoring || is_admin,
        _ => monitoring,
    }
}

/// Those of the wallets that are addresses, in order.
pub fn reachable_wallets(wallets: &Vec<String>) -> (r: Vec<String>)
    ensures
        texts(r@) == reachable(texts(wallets@)),
{
    let ghost pred = |w: Seq<char>| is_address(w);
    let mut out: Vec<String> = Vec::new();
    let mut i: usize = 0;
    proof {
        reveal(Seq::filter);
        assert(texts(out@) =~= texts(wallets@).take(0).filter(pred));
    }
    while i < wallets.len()
        invariant
            i <= wallets.len(),
            pred == (|w: Seq<char>| is_address(w)),
            texts(out@) == texts(wallets@).take(i as int).filter(pred),
        decreases wallets.len() - i,
    {
        let ghost before = texts(out@);
        proof {
            reveal(Seq::filter);
            assert(texts(wallets@).take(i + 1).drop_last() =~= texts(wallets@).take(i as int));
        }
        if accepts_address(wallets[i].as_str()) {
            out.push(wallets[i].clone());
            assert(texts(out@) =~= before.push(wallets@[i as int]@));
        }
        i += 1;
    }
    assert(texts(wallets@).take(i as int) =~= texts(wallets@));
    out
}

fn one(effect: Effect) -> (r: Vec<Effect>)
    ensures
        effect_views(r@) == seq![effect@],
{
    let mut r: Vec<Effect> = Vec::new();
    r.push(effect);
    assert(effect_views(r@) =~= seq![effect@]);
    r
}

fn two(first: Effect, second: Effect) -> (r: Vec<Effect>)
    ensures
        effect_views(r@) == seq![first@, second@],
{
    let mut r: Vec<Effect> = Vec::new();
    r.push(first);
    r.push(second);
    assert(effect_views(r@) =~= seq![first@, second@]);
    r
}

fn none() -> (r: Vec<Effect>)
    ensures
        effect_views(r@) == Seq::<EffectView>::empty(),
{
    let r: Vec<Effect> = Vec::new();
    assert(effect_views(r@) =~= Seq::<EffectView>::empty());
    r
}

fn say(text: &str) -> (r: Effect)
    ensures
        r@ == EffectView::Send(plain(text@)),
{
    Effect::Send(plain_reply(text.to_owned()))
}

/// What a command brings about, given what the book says.
pub fn plan_command(
    cmd: &Command,
    chat_id: i64,
    is_admin: bool,
    now: &str,
    edit: Option<i32>,
    mine: &Vec<String>,
    users: &Vec<i64>,
    wallets: usize,
    monitoring: bool,
) -> (effects: Vec<Effect>)
    ensures
        effect_views(effects@) == command_effects(
            *cmd,
            chat_id,
            is_admin,
            now@,
            edit,
            texts(mine@),
            users@,
            wallets,
            monitoring,
        ),
{
    match cmd {
        Command::Start => two(
            Effect::Send(
                Reply {
                    text: "🔄 Syncing Enterprise UI...".to_owned(),
                    edit: None,
                    markup: Markup::RemoveKeyboard,
                },
            ),
            Effect::Send(
                Reply {
                    text: "🤖 <b>Kaspa Enterprise Command Center</b>\n━━━━━━━━━━━━━━━━━━\nWelcome! This system provides secure, real-time Kaspa wallet monitoring directly via a private node.\n\n📌 <b>Public Commands:</b>\n<code>/add &lt;address&gt;</code> - Track a wallet\n<code>/remove &lt;address&gt;</code> - Stop tracking\n<code>/balance</code> - Check live balances & UTXOs\n<code>/blocks</code> - Count unspent mined blocks\n<code>/miner</code> - Estimate Hashrate\n<code>/network</code> - Node & Mining Stats\n\n👑 <b>Admin Commands:</b>\n<code>/sys</code> - Server Diagnostics\n<code>/pause</code> - Disconnect Engine\n<code>/resume</code> - Reconnect Engine\n<code>/restart</code> - Reboot Process".to_owned(),
                    edit: None,
                    markup: Markup::MainMenu,
                },
            ),
        ),
        Command::Add(w) => {
            let wallet = complete_address(w.as_str());
            if !accepts_address(wallet.as_str()) {
                return one(say("❌ <b>Invalid Format!</b>\nPlease provide a valid Kaspa address."));
            }
            if !is_admin && mine.len() >= WALLET_LIMIT {
                return one(
                    say("⚠️ <b>Security Limit Reached!</b>\nStandard users can only track up to 5 wallets."),
                );
            }
            let mut text = "✅ <b>Tracking Enabled:</b>\n<code>".to_owned();
            text.append(wallet.as_str());
            text.append("</code>");
            two(
                Effect::Store(add_wallet_to_db(wallet.as_str(), chat_id)),
                Effect::Send(plain_reply(text)),
            )
        },
        Command::Remove(w) => {
            let wallet = complete_address(w.as_str());
            two(
                Effect::Store(remove_wallet_from_db(wallet.as_str(), chat_id)),
                say("🗑️ <b>Wallet Removed.</b>"),
            )
        },
        Command::List => one(Effect::Send(list_reply(mine, now, edit))),
        Command::Balance => one(Effect::Fetch(Query::Balance(reachable_wallets(mine)))),
        Command::Blocks => {
            if mine.len() == 0 {
                return one(
                    Effect::Send(
                        Reply {
                            text: "⚠️ <b>No wallets tracked.</b>".to_owned(),
                            edit,
                            markup: Markup::Plain,
                        },
                    ),
                );
            }
            one(Effect::Fetch(Query::Blocks(reachable_wallets(mine))))
        },
        Command::Miner => {
            if mine.len() == 0 {
                return none();
            }
            one(Effect::Fetch(Query::Miner(reachable_wallets(mine))))
        },
        Command::Network => one(
            Effect::Fetch(
                Query::Network(
                    "kaspa:qq2avyvncscg5dtsk8u4uwjhlr3799dhaqj8k9y6q5y9hpwfxjy6u00pep7vg".to_owned(),
                ),
            ),
        ),
        Command::Dag => one(Effect::Fetch(Query::Dag)),
        Command::Price => one(Effect::Fetch(Query::Price)),
        Command::Market => one(Effect::Fetch(Query::Market)),
        Command::Supply => one(Effect::Fetch(Query::Supply)),
        Command::Fees => one(Effect::Fetch(Query::Fees)),
        Command::Donate => one(
            say(
                "❤️ <b>Support & Donate</b>\nIf you find this bot valuable, consider supporting its development!\n\n<b>Kaspa (KAS) Address:</b>\n<code>kaspa:qz0yqq8z3twwgg7lq2mjzg6w4edqys45w2wslz7tym2tc6s84580vvx9zr44g</code>",
            ),
        ),
        _ => {
            if is_admin {
                plan_admin_command(cmd, users, wallets, monitoring)
            } else {
                none()
            }
        },
    }
}

fn plan_admin_command(cmd: &Command, users: &Vec<i64>, wallets: usize, monitoring: bool) -> (effects: Vec<Effect>)
    ensures
        effect_views(effects@) == admin_effects(*cmd, users@, wallets, monitoring),
{
    match cmd {
        Command::Stats => one(Effect::Fetch(Query::Stats { users: users.len(), wallets })),
        Command::Sys => one(Effect::Fetch(Query::Sys(monitoring))),
        Command::Pause => one(say("⏸️ <b>Monitoring Paused.</b>")),
        Command::Resume => one(say("▶️ <b>Monitoring Active.</b>")),
        Command::Restart => two(say("🔄 <b>Restarting safely...</b>"), Effect::Exit),
        Command::Broadcast(m) => {
            let mut text = "📢 <b>Admin Broadcast:</b>\n\n".to_owned();
            text.append(m.as_str());
            one(Effect::Fetch(Query::Broadcast { recipients: copy_chats(users), text }))
        },
        Command::Logs => one(Effect::Fetch(Query::Logs)),
        _ => none(),
    }
}

/// A list of the wallets of a chat is as long as there are such wallets.
proof fn tracked_list_len(list: Seq<Seq<char>>, book: Book, chat_id: i64)
    requires
        lists_tracked(list, book, chat_id),
    ensures
        tracked_set(book, chat_id).finite(),
        list.len() == tracked_set(book, chat_id).len(),
{
    assert(list.to_set() =~= tracked_set(book, chat_id));
    list.unique_seq_to_set();
}

/// Carries out a command on the state of the bot, and tells what has to follow.
pub fn handle_command(
    ctx: &mut AppContext,
    cmd: &Command,
    chat_id: i64,
    user_id: i64,
    now: &str,
    edit: Option<i32>,
) -> (effects: Vec<Effect>)
    ensures
        answers(
            effect_views(effects@),
            old(ctx).book(),
            old(ctx).monitoring,
            *cmd,
            chat_id,
            user_id == old(ctx).admin_id,
            now@,
            edit,
        ),
        final(ctx).book() == book_after(old(ctx).book(), *cmd, chat_id, user_id == old(ctx).admin_id),
        final(ctx).monitoring == monitoring_after(
            old(ctx).monitoring,
            *cmd,
            user_id == old(ctx).admin_id,
        ),
        final(ctx).utxo_state == old(ctx).utxo_state,
        final(ctx).memory == old(ctx).memory,
        final(ctx).admin_id == old(ctx).admin_id,
{
    let is_admin = user_id == ctx.admin_id;
    let mine = tracked_wallets(&ctx.state, chat_id);
    let users = audience(&ctx.state);
    let wallets = wallet_count(&ctx.state);
    let effects = plan_command(cmd, chat_id, is_admin, now, edit, &mine, &users, wallets, ctx.monitoring);
    proof {
        tracked_list_len(texts(mine@), ctx.book(), chat_id);
    }
    match cmd {
        Command::Add(w) => {
            let wallet = complete_address(w.as_str());
            if accepts_address(wallet.as_str()) && (is_admin || mine.len() < WALLET_LIMIT) {
                subscribe(&mut ctx.state, wallet.as_str(), chat_id);
            }
        },
        Command::Remove(w) => {
            let wallet = complete_address(w.as_str());
            unsubscribe(&mut ctx.state, wallet.as_str(), chat_id);
        },
        Command::Pause => {
            if is_admin {
                ctx.monitoring = false;
            }
        },
        Command::Resume => {
            if is_admin {
                ctx.monitoring = true;
            }
        },
        _ => {},
    }
    effects
}

/// The command that a button stands for, and whether it asks for the same message to be
/// rewritten.
pub open spec fn route(data: Seq<char>) -> (Option<Command>, bool) {
    if data == "cmd_balance"@ {
        (Some(Command::Balance), false)
    } else if data == "refresh_balance"@ {
        (Some(Command::Balance), true)
    } else if data == "cmd_miner"@ {
        (Some(Command::Miner), false)
    } else if data == "refresh_miner"@ {
        (Some(Command::Miner), true)
    } else if data == "cmd_blocks"@ {
        (Some(Command::Blocks), false)
    } else if data == "refresh_blocks"@ {
        (Some(Command::Blocks), true)
    } else if data == "cmd_list"@ {
        (Some(Command::List), false)
    } else if data == "refresh_list"@ {
        (Some(Command::List), true)
    } else if data == "cmd_price"@ {
        (Some(Command::Price), false)
    } else if data == "refresh_price"@ {
        (Some(Command::Price), true)
    } else if data == "cmd_market"@ {
        (Some(Command::Market), false)
    } else if data == "refresh_market"@ {
        (Some(Command::Market), true)
    } else if data == "cmd_network"@ {
        (Some(Command::Network), false)
    } else if data == "refresh_network"@ {
        (Some(Command::Network), true)
    } else if data == "cmd_fees"@ {
        (Some(Command::Fees), false)
    } else if data == "refresh_fees"@ {
        (Some(Command::Fees), true)
    } else if data == "cmd_supply"@ {
        (Some(Command::Supply), false)
    } else if data == "refresh_supply"@ {
        (Some(Command::Supply), true)
    } else if data == "cmd_dag"@ {
        (Some(Command::Dag), false)
    } else if data == "refresh_dag"@ {
        (Some(Command::Dag), true)
    } else if data == "cmd_stats"@ {
        (Some(Command::Stats), false)
    } else if data == "refresh_stats"@ {
        (Some(Command::Stats), true)
    } else if data == "cmd_sys"@ {
        (Some(Command::Sys), false)
    } else if data == "refresh_sys"@ {
        (Some(Command::Sys), true)
    } else if data == "cmd_donate"@ {
        (Some(Command::Donate), false)
    } else {
        (None, false)
    }
}

/// The command that a button stands for, and whether it asks for the same message to be
/// rewritten.
pub fn route_callback(data: &str) -> (r: (Option<Command>, bool))
    ensures
        r == route(data@),
{
    if same_text(data, "cmd_balance") {
        return (Some(Command::Balance), false);
    }
    if same_text(data, "refresh_balance") {
        return (Some(Command::Balance), true);
    }
    if same_text(data, "cmd_miner") {
        return (Some(Command::Miner), false);
    }
    if same_text(data, "refresh_miner") {
        return (Some(Command::Miner), true);
    }
    if same_text(data, "cmd_blocks") {
        return (Some(Command::Blocks), false);
    }
    if same_text(data, "refresh_blocks") {
        return (Some(Command::Blocks), true);
    }
    if same_text(data, "cmd_list") {
        return (Some(Command::List), false);
    }
    if same_text(data, "refresh_list") {
        return (Some(Command::List), true);
    }
    if same_text(data, "cmd_price") {
        return (Some(Command::Price), false);
    }
    if same_text(data, "refresh_price") {
        return (Some(Command::Price), true);
    }
    if same_text(data, "cmd_market") {
        return (Some(Command::Market), false);
    }
    if same_text(data, "refresh_market") {
        return (Some(Command::Market), true);
    }
    if same_text(data, "cmd_network") {
        return (Some(Command::Network), false);
    }
    if same_text(data, "refresh_network") {
        return (Some(Command::Network), true);
    }
    if same_text(data, "cmd_fees") {
        return (Some(Command::Fees), false);
    }
    if same_text(data, "refresh_fees") {
        return (Some(Command::Fees), true);
    }
    if same_text(data, "cmd_supply") {
        return (Some(Command::Supply), false);
    }
    if same_text(data, "refresh_supply") {
        return (Some(Command::Supply), true);
    }
    if same_text(data, "cmd_dag") {
        return (Some(Command::Dag), false);
    }
    if same_text(data, "refresh_dag") {
        return (Some(Command::Dag), true);
    }
    if same_text(data, "cmd_stats") {
        return (Some(Command::Stats), false);
    }
    if same_text(data, "refresh_stats") {
        return (Some(Command::Stats), true);
    }
    if same_text(data, "cmd_sys") {
        return (Some(Command::Sys), false);
    }
    if same_text(data, "refresh_sys") {
        return (Some(Command::Sys), true);
    }
    if same_text(data, "cmd_donate") {
        return (Some(Command::Donate), false);
    }
    (None, false)
}

/// What a pressed button brings about: the text of the answer to the press, if there is one, and
/// the command to carry out, with the message that it rewrites.
pub struct CallbackPlan {
    pub answer: Option<String>,
    pub command: Option<Command>,
    pub edit: Option<i32>,
}

/// Decides on a pressed button. A user who presses too fast is told so, and nothing else
/// happens. A button without data or without its message, and a button that stands for no
/// command, is only answered.
pub fn handle_callback(is_spam: bool, data: Option<&str>, message_id: Option<i32>) -> (r: CallbackPlan)
    ensures
        is_spam ==> r.answer is Some && r.answer->0@ == "⚠️ Processing... Please wait a moment!"@,
        is_spam ==> r.command is None && r.edit is None,
        !is_spam ==> r.answer is None,
        !is_spam && data is Some && message_id is Some ==> r.command == route(data->0@).0 && r.edit == (
        if route(data->0@).1 {
            message_id
        } else {
            None
        }),
        !is_spam && (data is None || message_id is None) ==> r.command is None && r.edit is None,
{
    if is_spam {
        return CallbackPlan {
            answer: Some("⚠️ Processing... Please wait a moment!".to_owned()),
            command: None,
            edit: None,
        };
    }
    if let Some(d) = data {
        if let Some(id) = message_id {
            let (command, is_refresh) = route_callback(d);
            return CallbackPlan {
                answer: None,
                command,
                edit: if is_refresh {
                    Some(id)
                } else {
                    None
                },
            };
        }
    }
    CallbackPlan { answer: None, command: None, edit: None }
}

/// What the button under the report of a command sends back.
pub open spec fn refresh_data(cmd: Command) -> Option<Seq<char>> {
    match cmd {
        Command::Balance => Some("refresh_balance"@),
        Command::Miner => Some("refresh_miner"@),
        Command::Blocks => Some("refresh_blocks"@),
        Command::List => Some("refresh_list"@),
        Command::Price => Some("refresh_price"@),
        Command::Market => Some("refresh_market"@),
        Command::Network => Some("refresh_network"@),
        Command::Fees => Some("refresh_fees"@),
        Command::Supply => Some("refresh_supply"@),
        Command::Dag => Some("refresh_dag"@),
        Command::Stats => Some("refresh_stats"@),
        Command::Sys => Some("refresh_sys"@),
        _ => None,
    }
}

/// The button under a report asks for the same report again, in the same message.
pub proof fn refresh_button_repeats_the_report(cmd: Command)
    ensures
        refresh_data(cmd) matches Some(data) ==> route(data) == (Some(cmd), true),
{
    reveal_strlit("cmd_balance");
    reveal_strlit("refresh_balance");
    reveal_strlit("cmd_miner");
    reveal_strlit("refresh_miner");
    reveal_strlit("cmd_blocks");
    reveal_strlit("refresh_blocks");
    reveal_strlit("cmd_list");
    reveal_strlit("refresh_list");
    reveal_strlit("cmd_price");
    reveal_strlit("refresh_price");
    reveal_strlit("cmd_market");
    reveal_strlit("refresh_market");
    reveal_strlit("cmd_network");
    reveal_strlit("refresh_network");
    reveal_strlit("cmd_fees");
    reveal_strlit("refresh_fees");
    reveal_strlit("cmd_supply");
    reveal_strlit("refresh_supply");
    reveal_strlit("cmd_dag");
    reveal_strlit("refresh_dag");
    reveal_strlit("cmd_stats");
    reveal_strlit("refresh_stats");
    reveal_strlit("cmd_sys");
    reveal_strlit("refresh_sys");
    reveal_strlit("cmd_donate");
    if let Some(data) = refresh_data(cmd) {
        // Texts of one length differ in their first letter or in the letter behind "refresh_".
        assert(data[0] == 'r');
        assert("cmd_balance"@.len() == 11);
        assert("refresh_balance"@.len() == 15);
        assert("cmd_miner"@.len() == 9);
        assert("refresh_miner"@.len() == 13);
        assert("cmd_blocks"@.len() == 10);
        assert("refresh_blocks"@.len() == 14);
        assert("cmd_list"@.len() == 8);
        assert("refresh_list"@.len() == 12);
        assert("cmd_price"@.len() == 9);
        assert("refresh_price"@.len() == 13);
        assert("cmd_market"@.len() == 10);
        assert("refresh_market"@.len() == 14);
        assert("cmd_network"@.len() == 11);
        assert("refresh_network"@.len() == 15);
        assert("cmd_fees"@.len() == 8);
        assert("refresh_fees"@.len() == 12);
        assert("cmd_supply"@.len() == 10);
        assert("refresh_supply"@.len() == 14);
        assert("cmd_dag"@.len() == 7);
        assert("refresh_dag"@.len() == 11);
        assert("cmd_stats"@.len() == 9);
        assert("refresh_stats"@.len() == 13);
        assert("cmd_sys"@.len() == 7);
        assert("refresh_sys"@.len() == 11);
        assert("cmd_donate"@.len() == 10);
        assert("cmd_balance"@[0] == 'c');
        assert("cmd_miner"@[0] == 'c');
        assert("cmd_blocks"@[0] == 'c');
        assert("cmd_list"@[0] == 'c');
        assert("cmd_price"@[0] == 'c');
        assert("cmd_market"@[0] == 'c');
        assert("cmd_network"@[0] == 'c');
        assert("cmd_fees"@[0] == 'c');
        assert("cmd_supply"@[0] == 'c');
        assert("cmd_dag"@[0] == 'c');
        assert("cmd_stats"@[0] == 'c');
        assert("cmd_sys"@[0] == 'c');
        assert("cmd_donate"@[0] == 'c');
        assert("refresh_balance"@[8] == 'b');
        assert("refresh_miner"@[8] == 'm');
        assert("refresh_blocks"@[8] == 'b');
        assert("refresh_list"@[8] == 'l');
        assert("refresh_price"@[8] == 'p');
        assert("refresh_market"@[8] == 'm');
        assert("refresh_network"@[8] == 'n');
        assert("refresh_fees"@[8] == 'f');
        assert("refresh_supply"@[8] == 's');
        assert("refresh_dag"@[8] == 'd');
        assert("refresh_stats"@[8] == 's');
        assert("refresh_sys"@[8] == 's');
        match cmd {
            Command::Balance => assert(route("refresh_balance"@) == (Some(Command::Balance), true)),
            Command::Miner => assert(route("refresh_miner"@) == (Some(Command::Miner), true)),
            Command::Blocks => assert(route("refresh_blocks"@) == (Some(Command::Blocks), true)),
            Command::List => assert(route("refresh_list"@) == (Some(Command::List), true)),
            Command::Price => assert(route("refresh_price"@) == (Some(Command::Price), true)),
            Command::Market => assert(route("refresh_market"@) == (Some(Command::Market), true)),
            Command::Network => assert(route("refresh_network"@) == (Some(Command::Network), true)),
            Command::Fees => assert(route("refresh_fees"@) == (Some(Command::Fees), true)),
            Command::Supply => assert(route("refresh_supply"@) == (Some(Command::Supply), true)),
            Command::Dag => assert(route("refresh_dag"@) == (Some(Command::Dag), true)),
            Command::Stats => assert(route("refresh_stats"@) == (Some(Command::Stats), true)),
            Command::Sys => assert(route("refresh_sys"@) == (Some(Command::Sys), true)),
            _ => {},
        }
    }
}

/// Someone who is not the admin gets nothing from a command for the admin: no answer, and no
/// change.
pub proof fn admin_commands_are_refused(
    cmd: Command,
    chat_id: i64,
    now: Seq<char>,
    edit: Option<i32>,
    mine: Seq<Seq<char>>,
    users: Seq<i64>,
    wallets: usize,
    monitoring: bool,
    book: Book,
)
    requires
        is_admin_command(cmd),
    ensures
        command_effects(cmd, chat_id, false, now, edit, mine, users, wallets, monitoring) == Seq::<
            EffectView,
        >::empty(),
        book_after(book, cmd, chat_id, false) == book,
        monitoring_after(monitoring, cmd, false) == monitoring,
{
}

/// A standard user never gets past the limit: after any command a chat tracks at most as many
/// wallets as the limit allows, or as many as before.
pub proof fn standard_users_stay_within_the_limit(book: Book, cmd: Command, chat_id: i64)
    requires
        book.dom().finite(),
    ensures
        tracked_set(book_after(book, cmd, chat_id, false), chat_id).finite(),
        tracked_set(book_after(book, cmd, chat_id, false), chat_id).len() <= WALLET_LIMIT
            || tracked_set(book_after(book, cmd, chat_id, false), chat_id).len() <= tracked_set(
            book,
            chat_id,
        ).len(),
{
    let before = tracked_set(book, chat_id);
    let after = tracked_set(book_after(book, cmd, chat_id, false), chat_id);
    assert(before.subset_of(book.dom()));
    vstd::set_lib::lemma_len_subset(before, book.dom());
    match cmd {
        Command::Add(w) => {
            if grants(w@, false, before.len()) {
                assert(after =~= before.insert(full_address(w@)));
            }
        },
        Command::Remove(w) => {
            assert(after =~= before.remove(full_address(w@)));
        },
        _ => {},
    }
}

/// A command changes nothing for other chats.
pub proof fn other_chats_are_left_alone(
    book: Book,
    cmd: Command,
    chat_id: i64,
    is_admin: bool,
    other: i64,
    wallet: Seq<char>,
)
    requires
        other != chat_id,
    ensures
        trackers(book_after(book, cmd, chat_id, is_admin), wallet).contains(other) == trackers(
            book,
            wallet,
        ).contains(other),
{
}

/// A wallet that a chat was granted is watched from then on, and the chat is told of it.
pub proof fn granted_wallets_are_watched(book: Book, typed: String, chat_id: i64, is_admin: bool)
    requires
        grants(typed@, is_admin, tracked_set(book, chat_id).len()),
    ensures
        ({
            let after = watched(book_after(book, Command::Add(typed), chat_id, is_admin));
            &&& after.contains_key(full_address(typed@))
            &&& after[full_address(typed@)].contains(chat_id)
        }),
{
}

/// A chat is not told of a wallet that it removed.
pub proof fn removed_wallets_are_silent(book: Book, typed: String, chat_id: i64, is_admin: bool)
    ensures
        !trackers(
            watched(book_after(book, Command::Remove(typed), chat_id, is_admin)),
            full_address(typed@),
        ).contains(chat_id),
{
}

/// Removing a wallet undoes adding it: the book tells what it told before, if the chat did not
/// track the wallet then.
pub proof fn removing_undoes_adding(book: Book, typed: String, chat_id: i64, is_admin: bool)
    requires
        !trackers(book, full_address(typed@)).contains(chat_id),
    ensures
        rows_of(
            book_after(
                book_after(book, Command::Add(typed), chat_id, is_admin),
                Command::Remove(typed),
                chat_id,
                is_admin,
            ),
        ) == rows_of(book),
{
    let wallet = full_address(typed@);
    let added = book_after(book, Command::Add(typed), chat_id, is_admin);
    let row = (wallet, chat_id);
    crate::state::subscribing_adds_a_row(book, wallet, chat_id);
    crate::state::unsubscribing_drops_a_row(added, wallet, chat_id);
    assert(!rows_of(book).contains(row));
    assert(rows_of(book).insert(row).remove(row) =~= rows_of(book));
    assert(rows_of(book).remove(row) =~= rows_of(book));
}

/// The admin decides whether the bot monitors, whatever it did before; nobody else does.
pub proof fn the_admin_decides_on_monitoring(monitoring: bool)
    ensures
        !monitoring_after(monitoring, Command::Pause, true),
        monitoring_after(monitoring, Command::Resume, true),
        monitoring_after(monitoring, Command::Pause, false) == monitoring,
        monitoring_after(monitoring, Command::Resume, false) == monitoring,
{
}

/// The table after the statements among the effects were executed.
pub open spec fn stored(table: Table, effects: Seq<EffectView>) -> Table
    decreases effects.len(),
{
    if effects.len() == 0 {
        table
    } else {
        let before = stored(table, effects.drop_last());
        match effects.last() {
            EffectView::Store(statement) => executed(before, statement),
            _ => before,
        }
    }
}

/// The table stays in step with the book: if it told the same before a command, it tells the
/// same after the statements of the command were executed.
pub proof fn table_stays_in_step(
    book: Book,
    cmd: Command,
    chat_id: i64,
    is_admin: bool,
    now: Seq<char>,
    edit: Option<i32>,
    mine: Seq<Seq<char>>,
    users: Seq<i64>,
    wallets: usize,
    monitoring: bool,
)
    requires
        lists_tracked(mine, book, chat_id),
    ensures
        stored(
            rows_of(book),
            command_effects(cmd, chat_id, is_admin, now, edit, mine, users, wallets, monitoring),
        ) == rows_of(book_after(book, cmd, chat_id, is_admin)),
{
    tracked_list_len(mine, book, chat_id);
    let effects = command_effects(cmd, chat_id, is_admin, now, edit, mine, users, wallets, monitoring);
    let table = rows_of(book);
    assert(effects.len() <= 2);
    reveal_with_fuel(stored, 3);
    match cmd {
        Command::Add(w) => {
            if grants(w@, is_admin, mine.len()) {
                crate::state::subscribing_adds_a_row(book, full_address(w@), chat_id);
                assert(effects.drop_last().drop_last() =~= seq![]);
                assert(effects.drop_last().last() == effects[0]);
            } else {
                assert(effects.drop_last() =~= seq![]);
            }
        },
        Command::Remove(w) => {
            crate::state::unsubscribing_drops_a_row(book, full_address(w@), chat_id);
            assert(effects.drop_last().drop_last() =~= seq![]);
            assert(effects.drop_last().last() == effects[0]);
        },
        _ => {
            if effects.len() == 2 {
                assert(effects.drop_last().drop_last() =~= seq![]);
                assert(effects.drop_last().last() == effects[0]);
            } else if effects.len() == 1 {
                assert(effects.drop_last() =~= seq![]);
            }
        },
    }
}

// ---- What commands ask for and change

/// A wallet is granted exactly if what was typed is an address, and the user is the admin or the
/// chat tracks fewer than five wallets.
pub proof fn wallets_are_granted_by_address_and_count(typed: Seq<char>, is_admin: bool, mine: nat)
    ensures
        grants(typed, is_admin, mine) <==> is_address(full_address(typed)) && (is_admin || mine < 5),
{
}

/// The wallets whose outputs are asked for are those that are addresses, all of them, in order.
pub proof fn all_addresses_are_reachable(mine: Seq<Seq<char>>, w: Seq<char>)
    ensures
        reachable(mine) == mine.filter(|v: Seq<char>| is_address(v)),
        reachable(mine).contains(w) <==> mine.contains(w) && is_address(w),
{
    let pred = |v: Seq<char>| is_address(v);
    if mine.contains(w) && is_address(w) {
        mine.lemma_filter_contains(pred, mine.index_of(w));
    }
    if reachable(mine).contains(w) {
        mine.lemma_filter_contains_rev(pred, w);
        mine.lemma_filter_pred(pred, reachable(mine).index_of(w));
    }
}

/// The reports on wallets ask for all wallets of the chat that are addresses, for every user, and
/// in every chat; without wallets there are no blocks to count and nothing to estimate.
pub proof fn wallet_reports_ask_for_all_addresses(
    chat_id: i64,
    is_admin: bool,
    now: Seq<char>,
    edit: Option<i32>,
    mine: Seq<Seq<char>>,
    users: Seq<i64>,
    wallets: usize,
    monitoring: bool,
)
    ensures
        ({
            let asked = mine.filter(|v: Seq<char>| is_address(v));
            let effects = |cmd: Command|
                command_effects(cmd, chat_id, is_admin, now, edit, mine, users, wallets, monitoring);
            &&& effects(Command::Balance) == seq![EffectView::Fetch(QueryView::Balance(asked))]
            &&& mine.len() > 0 ==> effects(Command::Blocks) == seq![
                EffectView::Fetch(QueryView::Blocks(asked)),
            ]
            &&& mine.len() > 0 ==> effects(Command::Miner) == seq![
                EffectView::Fetch(QueryView::Miner(asked)),
            ]
            &&& mine.len() == 0 ==> effects(Command::Miner) == Seq::<EffectView>::empty()
            &&& mine.len() == 0 ==> effects(Command::Blocks).len() == 1 && effects(
                Command::Blocks,
            )[0] is Send
        }),
{
}

/// The reports on the node and the market are for everyone, in every chat.
pub proof fn public_reports_are_for_everyone(
    chat_id: i64,
    is_admin: bool,
    now: Seq<char>,
    edit: Option<i32>,
    mine: Seq<Seq<char>>,
    users: Seq<i64>,
    wallets: usize,
    monitoring: bool,
)
    ensures
        ({
            let effects = |cmd: Command|
                command_effects(cmd, chat_id, is_admin, now, edit, mine, users, wallets, monitoring);
            &&& effects(Command::Dag) == seq![EffectView::Fetch(QueryView::Dag)]
            &&& effects(Command::Price) == seq![EffectView::Fetch(QueryView::Price)]
            &&& effects(Command::Market) == seq![EffectView::Fetch(QueryView::Market)]
            &&& effects(Command::Supply) == seq![EffectView::Fetch(QueryView::Supply)]
            &&& effects(Command::Fees) == seq![EffectView::Fetch(QueryView::Fees)]
            &&& effects(Command::Network).len() == 1 && effects(Command::Network)[0]
                == EffectView::Fetch(QueryView::Network(template_address()))
            &&& effects(Command::List) == seq![
                EffectView::Send(
                    ReplyView {
                        text: list_text(mine, now),
                        edit,
                        markup: MarkupView::Refresh("refresh_list"@),
                    },
                ),
            ]
            &&& effects(Command::Donate).len() == 1 && effects(Command::Donate)[0] is Send
            &&& effects(Command::Start).len() == 2 && effects(Command::Start)[0] is Send
                && effects(Command::Start)[1] is Send
        }),
{
}

/// The admin's commands bring about what they say, with all users and the number of all wallets.
pub proof fn the_admin_is_obeyed(
    chat_id: i64,
    now: Seq<char>,
    edit: Option<i32>,
    mine: Seq<Seq<char>>,
    users: Seq<i64>,
    wallets: usize,
    monitoring: bool,
    message: String,
)
    ensures
        ({
            let effects = |cmd: Command|
                command_effects(cmd, chat_id, true, now, edit, mine, users, wallets, monitoring);
            &&& effects(Command::Broadcast(message)) == seq![
                EffectView::Fetch(
                    QueryView::Broadcast {
                        recipients: users,
                        text: "📢 <b>Admin Broadcast:</b>\n\n"@ + message@,
                    },
                ),
            ]
            &&& effects(Command::Stats) == seq![
                EffectView::Fetch(QueryView::Stats { users: users.len() as usize, wallets }),
            ]
            &&& effects(Command::Sys) == seq![EffectView::Fetch(QueryView::Sys(monitoring))]
            &&& effects(Command::Logs) == seq![EffectView::Fetch(QueryView::Logs)]
            &&& effects(Command::Restart).len() == 2 && effects(Command::Restart)[0] is Send
                && effects(Command::Restart)[1] is Exit
        }),
{
}

/// Adding a wallet is stored and confirmed if it is granted, and answered otherwise; removing one
/// is always stored and confirmed.
pub proof fn changes_are_stored_and_answered(
    typed: String,
    chat_id: i64,
    is_admin: bool,
    now: Seq<char>,
    edit: Option<i32>,
    mine: Seq<Seq<char>>,
    users: Seq<i64>,
    wallets: usize,
    monitoring: bool,
)
    ensures
        ({
            let add = command_effects(
                Command::Add(typed),
                chat_id,
                is_admin,
                now,
                edit,
                mine,
                users,
                wallets,
                monitoring,
            );
            let remove = command_effects(
                Command::Remove(typed),
                chat_id,
                is_admin,
                now,
                edit,
                mine,
                users,
                wallets,
                monitoring,
            );
            let wallet = full_address(typed@);
            &&& is_address(wallet) && (is_admin || mine.len() < 5) ==> add.len() == 2 && add[0]
                == EffectView::Store(insertion(wallet, chat_id)) && add[1] is Send
            &&& !is_address(wallet) || !(is_admin || mine.len() < 5) ==> add.len() == 1 && add[0] is Send
            &&& remove.len() == 2 && remove[0] == EffectView::Store(deletion(wallet, chat_id))
                && remove[1] is Send
        }),
{
}

/// What a command does to the book: adding, if it is granted, makes the chat track that one wallet;
/// removing ends that; no other command changes what any chat tracks.
pub proof fn commands_change_one_wallet(
    book: Book,
    cmd: Command,
    chat_id: i64,
    is_admin: bool,
    w: Seq<char>,
    c: i64,
)
    ensures
        ({
            let before = trackers(book, w).contains(c);
            let after = trackers(book_after(book, cmd, chat_id, is_admin), w).contains(c);
            match cmd {
                Command::Add(typed) => after <==> before || (c == chat_id && w == full_address(typed@)
                    && is_address(w) && (is_admin || tracked_set(book, chat_id).len() < 5)),
                Command::Remove(typed) => after <==> before && !(c == chat_id && w == full_address(
                    typed@,
                )),
                _ => after == before,
            }
        }),
        !(cmd is Add || cmd is Remove) ==> book_after(book, cmd, chat_id, is_admin) == book,
{
}

/// The wallets of a chat are those of the book that it tracks.
pub proof fn tracked_wallets_are_in_the_book(book: Book, chat_id: i64, w: Seq<char>)
    ensures
        tracked_set(book, chat_id).contains(w) <==> book.contains_key(w) && book[w].contains(chat_id),
{
}

/// Pausing and resuming are the only commands that change whether the bot monitors.
pub proof fn other_commands_leave_monitoring_alone(monitoring: bool, cmd: Command, is_admin: bool)
    requires
        !(cmd is Pause || cmd is Resume),
    ensures
        monitoring_after(monitoring, cmd, is_admin) == monitoring,
{
}

/// What is answered to a change: the wallet that is tracked from then on, or why it is not; and that
/// a wallet was removed.
pub proof fn changes_are_answered_in_words(
    typed: String,
    chat_id: i64,
    is_admin: bool,
    now: Seq<char>,
    edit: Option<i32>,
    mine: Seq<Seq<char>>,
    users: Seq<i64>,
    wallets: usize,
    monitoring: bool,
)
    ensures
        ({
            let effects = |cmd: Command|
                command_effects(cmd, chat_id, is_admin, now, edit, mine, users, wallets, monitoring);
            let add = effects(Command::Add(typed));
            let remove = effects(Command::Remove(typed));
            let wallet = full_address(typed@);
            let word = |text: Seq<char>|
                EffectView::Send(ReplyView { text, edit: None, markup: MarkupView::Plain });
            &&& is_address(wallet) && (is_admin || mine.len() < 5) ==> add[1] == word(
                "✅ <b>Tracking Enabled:</b>\n<code>"@ + wallet + "</code>"@,
            )
            &&& is_address(wallet) && !(is_admin || mine.len() < 5) ==> add[0] == word(
                "⚠️ <b>Security Limit Reached!</b>\nStandard users can only track up to 5 wallets."@,
            )
            &&& !is_address(wallet) ==> add[0] == word(
                "❌ <b>Invalid Format!</b>\nPlease provide a valid Kaspa address."@,
            )
            &&& remove[1] == word("🗑️ <b>Wallet Removed.</b>"@)
        }),
{
}

/// The admin is told that the bot pauses, resumes or restarts; without wallets a chat is told so
/// when it asks for its blocks; a conversation starts with the help and the main menu.
pub proof fn other_commands_are_answered_in_words(
    chat_id: i64,
    is_admin: bool,
    now: Seq<char>,
    edit: Option<i32>,
    users: Seq<i64>,
    wallets: usize,
    monitoring: bool,
    mine: Seq<Seq<char>>,
)
    ensures
        ({
            let effects = |cmd: Command, admin: bool|
                command_effects(cmd, chat_id, admin, now, edit, mine, users, wallets, monitoring);
            let word = |text: Seq<char>|
                EffectView::Send(ReplyView { text, edit: None, markup: MarkupView::Plain });
            &&& effects(Command::Pause, true) == seq![word("⏸️ <b>Monitoring Paused.</b>"@)]
            &&& effects(Command::Resume, true) == seq![word("▶️ <b>Monitoring Active.</b>"@)]
            &&& effects(Command::Restart, true) == seq![
                word("🔄 <b>Restarting safely...</b>"@),
                EffectView::Exit,
            ]
            &&& mine.len() == 0 ==> effects(Command::Blocks, is_admin) == seq![
                EffectView::Send(
                    ReplyView {
                        text: "⚠️ <b>No wallets tracked.</b>"@,
                        edit,
                        markup: MarkupView::Plain,
                    },
                ),
            ]
            &&& effects(Command::Start, is_admin) == seq![
                EffectView::Send(
                    ReplyView {
                        text: "🔄 Syncing Enterprise UI..."@,
                        edit: None,
                        markup: MarkupView::RemoveKeyboard,
                    },
                ),
                EffectView::Send(
                    ReplyView { text: help_text(), edit: None, markup: MarkupView::MainMenu },
                ),
            ]
            &&& effects(Command::Donate, is_admin) == seq![word(donate_text())]
        }),
{
}

/// Effects are viewed one by one, each with all that it holds, and none is left out.
pub proof fn effects_are_viewed_one_by_one(
    effects: Seq<Effect>,
    i: int,
    list: Vec<String>,
    text: String,
    users: Vec<i64>,
)
    ensures
        effect_views(effects).len() == effects.len(),
        0 <= i < effects.len() ==> effect_views(effects)[i] == effects[i]@,
        Query::Balance(list)@ == QueryView::Balance(texts(list@)),
        Query::Blocks(list)@ == QueryView::Blocks(texts(list@)),
        Query::Miner(list)@ == QueryView::Miner(texts(list@)),
        (Query::Broadcast { recipients: users, text })@ == (QueryView::Broadcast {
            recipients: users@,
            text: text@,
        }),
{
}

/// What a button sends back tells its kind and its name: neither of them can be taken for another.
proof fn buttons_differ_by_name(name: Seq<char>, other: Seq<char>)
    ensures
        "cmd_"@ + name == "cmd_"@ + other <==> name == other,
        "refresh_"@ + name == "refresh_"@ + other <==> name == other,
        "cmd_"@ + name != "refresh_"@ + other,
        "refresh_"@ + name != "cmd_"@ + other,
{
    reveal_strlit("cmd_");
    reveal_strlit("refresh_");
    let a = "cmd_"@;
    let b = "refresh_"@;
    assert(a[0] == 'c' && b[0] == 'r');
    assert((a + name).skip(a.len() as int) =~= name);
    assert((a + other).skip(a.len() as int) =~= other);
    assert((b + name).skip(b.len() as int) =~= name);
    assert((b + other).skip(b.len() as int) =~= other);
    assert((a + name)[0] == 'c' && (b + other)[0] == 'r');
    assert((b + name)[0] == 'r' && (a + other)[0] == 'c');
}

/// A button of the menu and the button under a report that have the same name stand for the same
/// command, in a new message and in the same message. Only the appeal for donations has no button
/// under it.
pub proof fn buttons_of_one_name_ask_for_the_same(name: Seq<char>)
    ensures
        name != "donate"@ ==> route("cmd_"@ + name).0 == route("refresh_"@ + name).0,
        !route("cmd_"@ + name).1,
        route("refresh_"@ + name).1 <==> route("refresh_"@ + name).0 is Some,
        name == "donate"@ ==> route("cmd_"@ + name).0 == Some(Command::Donate) && route(
            "refresh_"@ + name,
        ).0 is None,
{
    reveal_strlit("cmd_");
    reveal_strlit("refresh_");
    reveal_strlit("balance");
    reveal_strlit("cmd_balance");
    assert("cmd_balance"@ =~= "cmd_"@ + "balance"@);
    buttons_differ_by_name(name, "balance"@);
    reveal_strlit("refresh_balance");
    assert("refresh_balance"@ =~= "refresh_"@ + "balance"@);
    reveal_strlit("miner");
    reveal_strlit("cmd_miner");
    assert("cmd_miner"@ =~= "cmd_"@ + "miner"@);
    buttons_differ_by_name(name, "miner"@);
    reveal_strlit("refresh_miner");
    assert("refresh_miner"@ =~= "refresh_"@ + "miner"@);
    reveal_strlit("blocks");
    reveal_strlit("cmd_blocks");
    assert("cmd_blocks"@ =~= "cmd_"@ + "blocks"@);
    buttons_differ_by_name(name, "blocks"@);
    reveal_strlit("refresh_blocks");
    assert("refresh_blocks"@ =~= "refresh_"@ + "blocks"@);
    reveal_strlit("list");
    reveal_strlit("cmd_list");
    assert("cmd_list"@ =~= "cmd_"@ + "list"@);
    buttons_differ_by_name(name, "list"@);
    reveal_strlit("refresh_list");
    assert("refresh_list"@ =~= "refresh_"@ + "list"@);
    reveal_strlit("price");
    reveal_strlit("cmd_price");
    assert("cmd_price"@ =~= "cmd_"@ + "price"@);
    buttons_differ_by_name(name, "price"@);
    reveal_strlit("refresh_price");
    assert("refresh_price"@ =~= "refresh_"@ + "price"@);
    reveal_strlit("market");
    reveal_strlit("cmd_market");
    assert("cmd_market"@ =~= "cmd_"@ + "market"@);
    buttons_differ_by_name(name, "market"@);
    reveal_strlit("refresh_market");
    assert("refresh_market"@ =~= "refresh_"@ + "market"@);
    reveal_strlit("network");
    reveal_strlit("cmd_network");
    assert("cmd_network"@ =~= "cmd_"@ + "network"@);
    buttons_differ_by_name(name, "network"@);
    reveal_strlit("refresh_network");
    assert("refresh_network"@ =~= "refresh_"@ + "network"@);
    reveal_strlit("fees");
    reveal_strlit("cmd_fees");
    assert("cmd_fees"@ =~= "cmd_"@ + "fees"@);
    buttons_differ_by_name(name, "fees"@);
    reveal_strlit("refresh_fees");
    assert("refresh_fees"@ =~= "refresh_"@ + "fees"@);
    reveal_strlit("supply");
    reveal_strlit("cmd_supply");
    assert("cmd_supply"@ =~= "cmd_"@ + "supply"@);
    buttons_differ_by_name(name, "supply"@);
    reveal_strlit("refresh_supply");
    assert("refresh_supply"@ =~= "refresh_"@ + "supply"@);
    reveal_strlit("dag");
    reveal_strlit("cmd_dag");
    assert("cmd_dag"@ =~= "cmd_"@ + "dag"@);
    buttons_differ_by_name(name, "dag"@);
    reveal_strlit("refresh_dag");
    assert("refresh_dag"@ =~= "refresh_"@ + "dag"@);
    reveal_strlit("stats");
    reveal_strlit("cmd_stats");
    assert("cmd_stats"@ =~= "cmd_"@ + "stats"@);
    buttons_differ_by_name(name, "stats"@);
    reveal_strlit("refresh_stats");
    assert("refresh_stats"@ =~= "refresh_"@ + "stats"@);
    reveal_strlit("sys");
    reveal_strlit("cmd_sys");
    assert("cmd_sys"@ =~= "cmd_"@ + "sys"@);
    buttons_differ_by_name(name, "sys"@);
    reveal_strlit("refresh_sys");
    assert("refresh_sys"@ =~= "refresh_"@ + "sys"@);
    reveal_strlit("donate");
    reveal_strlit("cmd_donate");
    assert("cmd_donate"@ =~= "cmd_"@ + "donate"@);
    buttons_differ_by_name(name, "donate"@);
    assert("donate"@.len() == 6);
    assert("donate"@[0] == 'd' && "blocks"@[0] == 'b' && "market"@[0] == 'm' && "supply"@[0] == 's');
    assert("balance"@.len() == 7);
    assert("miner"@.len() == 5);
    assert("list"@.len() == 4);
    assert("price"@.len() == 5);
    assert("network"@.len() == 7);
    assert("fees"@.len() == 4);
    assert("dag"@.len() == 3);
    assert("stats"@.len() == 5);
    assert("sys"@.len() == 3);
}

/// Whatever a balance is asked for: the outputs of every wallet that the chat tracks and that is an
/// address, and of no other.
pub proof fn balances_are_fetched_for_the_chat(
    effects: Seq<EffectView>,
    book: Book,
    monitoring: bool,
    chat_id: i64,
    is_admin: bool,
    now: Seq<char>,
    edit: Option<i32>,
    w: Seq<char>,
)
    requires
        answers(effects, book, monitoring, Command::Balance, chat_id, is_admin, now, edit),
    ensures
        effects.len() == 1,
        effects[0] matches EffectView::Fetch(QueryView::Balance(list)) && (list.contains(w) <==> (
        book.contains_key(w) && book[w].contains(chat_id) && is_address(w))),
{
    let (mine, users) = choose|mine: Seq<Seq<char>>, users: Seq<i64>|
        #![trigger lists_tracked(mine, book, chat_id), lists_audience(users, book)]
        lists_tracked(mine, book, chat_id) && lists_audience(users, book) && effects
            == command_effects(
            Command::Balance,
            chat_id,
            is_admin,
            now,
            edit,
            mine,
            users,
            book.dom().len() as usize,
            monitoring,
        );
    all_addresses_are_reachable(mine, w);
    assert(mine.contains(w) <==> trackers(book, w).contains(chat_id));
}

/// A broadcast of the admin goes to every chat that tracks a wallet, to each of them once, and to
/// nobody else.
pub proof fn broadcasts_go_to_everyone(
    effects: Seq<EffectView>,
    book: Book,
    monitoring: bool,
    message: String,
    chat_id: i64,
    now: Seq<char>,
    edit: Option<i32>,
    c: i64,
)
    requires
        answers(effects, book, monitoring, Command::Broadcast(message), chat_id, true, now, edit),
    ensures
        effects.len() == 1,
        effects[0] matches EffectView::Fetch(QueryView::Broadcast { recipients, text })
            && recipients.no_duplicates() && (recipients.contains(c) <==> exists|w: Seq<char>| #[trigger]
            book.contains_key(w) && book[w].contains(c)),
{
    let (mine, users) = choose|mine: Seq<Seq<char>>, users: Seq<i64>|
        #![trigger lists_tracked(mine, book, chat_id), lists_audience(users, book)]
        lists_tracked(mine, book, chat_id) && lists_audience(users, book) && effects
            == command_effects(
            Command::Broadcast(message),
            chat_id,
            true,
            now,
            edit,
            mine,
            users,
            book.dom().len() as usize,
            monitoring,
        );
    if users.contains(c) {
        let w = choose|w: Seq<char>| #[trigger] trackers(book, w).contains(c);
        assert(book.contains_key(w) && book[w].contains(c));
    }
    if exists|w: Seq<char>| #[trigger] book.contains_key(w) && book[w].contains(c) {
        let w = choose|w: Seq<char>| #[trigger] book.contains_key(w) && book[w].contains(c);
        assert(trackers(book, w).contains(c));
    }
}

} // verus!
