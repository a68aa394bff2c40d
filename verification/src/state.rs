//! Who tracks which wallet: the map that the bot works on, and the table that outlives it.

use crate::text::texts;
use std::collections::HashSet;
use vstd::hash_set::StringHashSet;
use vstd::prelude::*;

verus! {

/// `dashmap::DashMap`, the concurrent hash map.
#[verifier::external_type_specification]
#[verifier::external_body]
#[verifier::reject_recursive_types(K)]
#[verifier::reject_recursive_types(V)]
#[verifier::reject_recursive_types(S)]
pub struct ExDashMap<K, V, S>(dashmap::DashMap<K, V, S>);

/// The chats that track each wallet.
pub type SharedState = dashmap::DashMap<String, HashSet<i64>>;

/// The unspent outputs of each wallet that have been seen.
pub type UtxoState = dashmap::DashMap<String, StringHashSet>;

/// The chats of each wallet, by the wallet's address.
pub type Book = Map<Seq<char>, Set<i64>>;

/// The rows of the wallet table: an address and a chat that tracks it.
pub type Table = Set<(Seq<char>, i64)>;

/// What a wallet map holds.
pub uninterp spec fn wallet_contents(m: dashmap::DashMap<String, HashSet<i64>>) -> Map<Seq<char>, Set<i64>>;

/// What a map of seen outputs holds.
pub uninterp spec fn utxo_contents(m: dashmap::DashMap<String, StringHashSet>) -> Map<Seq<char>, Set<Seq<char>>>;

/// The book without any wallet.
pub open spec fn no_wallets() -> Book {
    Map::empty()
}

/// The record without any wallet.
pub open spec fn no_outputs() -> Map<Seq<char>, Set<Seq<char>>> {
    Map::empty()
}

/// The chats that track a wallet: none, if the wallet is not in the book.
pub open spec fn trackers(book: Book, wallet: Seq<char>) -> Set<i64> {
    if book.contains_key(wallet) {
        book[wallet]
    } else {
        Set::empty()
    }
}

/// The book after a chat begins to track a wallet.
pub open spec fn subscribed(book: Book, wallet: Seq<char>, chat_id: i64) -> Book {
    book.insert(wallet, trackers(book, wallet).insert(chat_id))
}

/// The book after a chat stops tracking a wallet. The wallet stays in the book, even when nobody
/// is left that tracks it.
pub open spec fn unsubscribed(book: Book, wallet: Seq<char>, chat_id: i64) -> Book {
    if book.contains_key(wallet) {
        book.insert(wallet, book[wallet].remove(chat_id))
    } else {
        book
    }
}

/// The book after the rows were added one by one.
pub open spec fn loaded(book: Book, rows: Seq<(Seq<char>, i64)>) -> Book
    decreases rows.len(),
{
    if rows.len() == 0 {
        book
    } else {
        let before = loaded(book, rows.drop_last());
        subscribed(before, rows.last().0, rows.last().1)
    }
}

/// The view of rows as they come from the table.
pub open spec fn row_views(rows: Seq<(String, i64)>) -> Seq<(Seq<char>, i64)> {
    Seq::new(rows.len(), |i: int| (rows[i].0@, rows[i].1))
}

/// A list of entries that tells the whole book: each wallet once, with each of its chats once.
pub open spec fn lists_book(entries: Seq<(String, Vec<i64>)>, book: Book) -> bool {
    &&& forall|i: int, j: int|
        0 <= i < j < entries.len() ==> (#[trigger] entries[i]).0@ != (#[trigger] entries[j]).0@
    &&& forall|i: int| 0 <= i < entries.len() ==> book.contains_key((#[trigger] entries[i]).0@)
    &&& forall|i: int|
        0 <= i < entries.len() ==> (#[trigger] entries[i]).1@.no_duplicates() && entries[i].1@.to_set()
            == book[entries[i].0@]
    &&& forall|w: Seq<char>| #[trigger]
        book.contains_key(w) ==> exists|i: int| 0 <= i < entries.len() && (#[trigger] entries[i]).0@ == w
}

/// A list of the wallets that a chat tracks, each of them once, in any order.
pub open spec fn lists_tracked(list: Seq<Seq<char>>, book: Book, chat_id: i64) -> bool {
    &&& list.no_duplicates()
    &&& forall|w: Seq<char>| #[trigger] list.contains(w) <==> trackers(book, w).contains(chat_id)
}

/// A list of the chats that track at least one wallet, each of them once, in any order.
pub open spec fn lists_audience(list: Seq<i64>, book: Book) -> bool {
    &&& list.no_duplicates()
    &&& forall|c: i64| #[trigger]
        list.contains(c) <==> exists|w: Seq<char>| #[trigger] trackers(book, w).contains(c)
}

/// `DashMap::new` makes an empty map.
#[verifier::external_body]
fn wallet_map_new() -> (m: dashmap::DashMap<String, HashSet<i64>>)
    ensures
        wallet_contents(m) == no_wallets(),
{
    dashmap::DashMap::new()
}

/// `DashMap::remove` takes the entry of the wallet out of the map and hands its set over.
#[verifier::external_body]
fn wallet_map_take(m: &mut dashmap::DashMap<String, HashSet<i64>>, wallet: &str) -> (r: Option<HashSet<i64>>)
    ensures
        wallet_contents(*final(m)) == wallet_contents(*old(m)).remove(wallet@),
        r is Some <==> wallet_contents(*old(m)).contains_key(wallet@),
        r matches Some(chats) ==> chats@ == wallet_contents(*old(m))[wallet@],
{
    m.remove(wallet).map(|entry| entry.1)
}

/// `DashMap::insert` puts the set of the wallet into the map, in place of the one before.
#[verifier::external_body]
fn wallet_map_put(m: &mut dashmap::DashMap<String, HashSet<i64>>, wallet: String, chats: HashSet<i64>)
    ensures
        wallet_contents(*final(m)) == wallet_contents(*old(m)).insert(wallet@, chats@),
{
    m.insert(wallet, chats);
}

/// `DashMap::iter` walks all entries, in no particular order.
#[verifier::external_body]
fn wallet_map_entries(m: &dashmap::DashMap<String, HashSet<i64>>) -> (entries: Vec<(String, Vec<i64>)>)
    ensures
        lists_book(entries@, wallet_contents(*m)),
{
    m.iter().map(|e| (e.key().clone(), e.value().iter().copied().collect())).collect()
}

/// `DashMap::len` counts the entries.
#[verifier::external_body]
fn wallet_map_len(m: &dashmap::DashMap<String, HashSet<i64>>) -> (n: usize)
    ensures
        n == wallet_contents(*m).dom().len(),
{
    m.len()
}

/// `DashMap::new` makes an empty map.
#[verifier::external_body]
fn utxo_map_new() -> (m: dashmap::DashMap<String, StringHashSet>)
    ensures
        utxo_contents(m) == no_outputs(),
{
    dashmap::DashMap::new()
}

/// `DashMap::remove` takes the entry of the wallet out of the map and hands its set over.
#[verifier::external_body]
fn utxo_map_take(m: &mut dashmap::DashMap<String, StringHashSet>, wallet: &str) -> (r: Option<StringHashSet>)
    ensures
        utxo_contents(*final(m)) == utxo_contents(*old(m)).remove(wallet@),
        r is Some <==> utxo_contents(*old(m)).contains_key(wallet@),
        r matches Some(seen) ==> seen@ == utxo_contents(*old(m))[wallet@],
{
    m.remove(wallet).map(|entry| entry.1)
}

/// `DashMap::insert` puts the set of the wallet into the map, in place of the one before.
#[verifier::external_body]
fn utxo_map_put(m: &mut dashmap::DashMap<String, StringHashSet>, wallet: String, seen: StringHashSet)
    ensures
        utxo_contents(*final(m)) == utxo_contents(*old(m)).insert(wallet@, seen@),
{
    m.insert(wallet, seen);
}

/// A book without wallets.
pub fn new_shared_state() -> (m: SharedState)
    ensures
        wallet_contents(m) == no_wallets(),
{
    wallet_map_new()
}

/// A record without outputs.
pub fn new_utxo_state() -> (m: UtxoState)
    ensures
        utxo_contents(m) == no_outputs(),
{
    utxo_map_new()
}

/// The outputs of a wallet that were seen before, taken out of the record: none, if the wallet
/// is not in it.
pub fn take_seen(m: &mut UtxoState, wallet: &str) -> (seen: StringHashSet)
    ensures
        utxo_contents(*final(m)) == utxo_contents(*old(m)).remove(wallet@),
        seen@ == seen_outputs(utxo_contents(*old(m)), wallet@),
{
    match utxo_map_take(m, wallet) {
        Some(seen) => seen,
        None => StringHashSet::new(),
    }
}

/// Records the outputs of a wallet.
pub fn put_seen(m: &mut UtxoState, wallet: &str, seen: StringHashSet)
    ensures
        utxo_contents(*final(m)) == utxo_contents(*old(m)).insert(wallet@, seen@),
{
    utxo_map_put(m, wallet.to_owned(), seen);
}

/// The outputs of a wallet that were seen before: none, if the wallet is not in the record.
pub open spec fn seen_outputs(record: Map<Seq<char>, Set<Seq<char>>>, wallet: Seq<char>) -> Set<Seq<char>> {
    if record.contains_key(wallet) {
        record[wallet]
    } else {
        Set::empty()
    }
}

/// Begins to track a wallet for a chat.
pub fn subscribe(state: &mut SharedState, wallet: &str, chat_id: i64)
    ensures
        wallet_contents(*final(state)) == subscribed(wallet_contents(*old(state)), wallet@, chat_id),
{
    broadcast use vstd::std_specs::hash::group_hash_axioms;

    let ghost book = wallet_contents(*state);
    let mut chats = match wallet_map_take(state, wallet) {
        Some(chats) => chats,
        None => HashSet::new(),
    };
    assert(chats@ =~= trackers(book, wallet@));
    chats.insert(chat_id);
    wallet_map_put(state, wallet.to_owned(), chats);
    assert(wallet_contents(*state) =~= subscribed(book, wallet@, chat_id));
}

/// Stops tracking a wallet for a chat.
pub fn unsubscribe(state: &mut SharedState, wallet: &str, chat_id: i64)
    ensures
        wallet_contents(*final(state)) == unsubscribed(wallet_contents(*old(state)), wallet@, chat_id),
{
    broadcast use vstd::std_specs::hash::group_hash_axioms;

    let ghost book = wallet_contents(*state);
    if let Some(mut chats) = wallet_map_take(state, wallet) {
        chats.remove(&chat_id);
        wallet_map_put(state, wallet.to_owned(), chats);
    }
    assert(wallet_contents(*state) =~= unsubscribed(book, wallet@, chat_id));
}

/// How many wallets are in the book.
pub fn wallet_count(state: &SharedState) -> (n: usize)
    ensures
        n == wallet_contents(*state).dom().len(),
{
    wallet_map_len(state)
}

/// All wallets with the chats that track them, in no particular order.
pub fn all_entries(state: &SharedState) -> (entries: Vec<(String, Vec<i64>)>)
    ensures
        lists_book(entries@, wallet_contents(*state)),
{
    wallet_map_entries(state)
}

fn contains_chat(chats: &Vec<i64>, chat_id: i64) -> (r: bool)
    ensures
        r == chats@.contains(chat_id),
{
    let mut i: usize = 0;
    while i < chats.len()
        invariant
            i <= chats.len(),
            forall|j: int| 0 <= j < i ==> chats@[j] != chat_id,
        decreases chats.len() - i,
    {
        if chats[i] == chat_id {
            return true;
        }
        i += 1;
    }
    false
}

pub(crate) fn copy_chats(list: &Vec<i64>) -> (r: Vec<i64>)
    ensures
        r@ == list@,
{
    let mut out: Vec<i64> = Vec::new();
    let mut i: usize = 0;
    while i < list.len()
        invariant
            i <= list.len(),
            out@ == list@.take(i as int),
        decreases list.len() - i,
    {
        out.push(list[i]);
        assert(list@.take(i + 1) =~= list@.take(i as int).push(list@[i as int]));
        i += 1;
    }
    assert(list@.take(i as int) =~= list@);
    out
}

/// The wallets that a chat tracks, in no particular order.
pub fn tracked_wallets(state: &SharedState, chat_id: i64) -> (list: Vec<String>)
    ensures
        lists_tracked(texts(list@), wallet_contents(*state), chat_id),
{
    let entries = wallet_map_entries(state);
    let ghost book = wallet_contents(*state);
    let mut list: Vec<String> = Vec::new();
    let mut i: usize = 0;
    while i < entries.len()
        invariant
            i <= entries.len(),
            lists_book(entries@, book),
            texts(list@).no_duplicates(),
            forall|w: Seq<char>| #[trigger]
                texts(list@).contains(w) <==> exists|j: int|
                    0 <= j < i && (#[trigger] entries@[j]).0@ == w && entries@[j].1@.contains(chat_id),
        decreases entries.len() - i,
    {
        let ghost before = texts(list@);
        if contains_chat(&entries[i].1, chat_id) {
            let ghost w = entries[i as int].0@;
            assert(!before.contains(w));
            list.push(entries[i].0.clone());
            assert(texts(list@) =~= before.push(w));
            assert forall|x: Seq<char>| #[trigger] texts(list@).contains(x) <==> (before.contains(x) || x == w) by {
                if x == w {
                    assert(texts(list@)[before.len() as int] == w);
                }
                if before.contains(x) {
                    let k = before.index_of(x);
                    assert(texts(list@)[k] == x);
                }
            }
        } else {
            assert(texts(list@) =~= before);
        }
        i += 1;
    }
    proof {
        assert forall|w: Seq<char>| #[trigger]
            texts(list@).contains(w) <==> trackers(book, w).contains(chat_id) by {
            if trackers(book, w).contains(chat_id) {
                let j = choose|j: int| 0 <= j < entries.len() && (#[trigger] entries@[j]).0@ == w;
                assert(entries@[j].1@.to_set().contains(chat_id));
            }
            if texts(list@).contains(w) {
                let j = choose|j: int|
                    0 <= j < entries.len() && (#[trigger] entries@[j]).0@ == w && entries@[j].1@.contains(chat_id);
                assert(entries@[j].1@.to_set().contains(chat_id));
            }
        }
    }
    list
}

/// The chats that track at least one wallet, in no particular order.
pub fn audience(state: &SharedState) -> (list: Vec<i64>)
    ensures
        lists_audience(list@, wallet_contents(*state)),
{
    broadcast use vstd::std_specs::hash::group_hash_axioms;

    let entries = wallet_map_entries(state);
    let ghost book = wallet_contents(*state);
    let mut seen: HashSet<i64> = HashSet::new();
    let mut list: Vec<i64> = Vec::new();
    let mut i: usize = 0;
    while i < entries.len()
        invariant
            i <= entries.len(),
            seen@ == list@.to_set(),
            list@.no_duplicates(),
            forall|c: i64| #[trigger]
                list@.contains(c) <==> exists|j: int| 0 <= j < i && (#[trigger] entries@[j]).1@.contains(c),
        decreases entries.len() - i,
    {
        let chats = &entries[i].1;
        let ghost before = list@;
        let mut k: usize = 0;
        while k < chats.len()
            invariant
                i < entries.len(),
                *chats == entries@[i as int].1,
                k <= chats.len(),
                seen@ == list@.to_set(),
                list@.no_duplicates(),
                forall|c: i64| #[trigger]
                    list@.contains(c) <==> before.contains(c) || chats@.take(k as int).contains(c),
            decreases chats.len() - k,
        {
            let ghost part = chats@.take(k as int);
            let ghost old_list = list@;
            let c = chats[k];
            assert(chats@.take(k + 1) =~= part.push(c));
            assert forall|x: i64| #[trigger]
                chats@.take(k + 1).contains(x) == (part.contains(x) || x == c) by {
                assert(part.push(c)[part.len() as int] == c);
                if part.contains(x) {
                    assert(part.push(c)[part.index_of(x)] == x);
                }
            }
            if seen.insert(c) {
                list.push(c);
                assert(!old_list.contains(c));
                assert forall|x: i64| #[trigger] list@.contains(x) == (old_list.contains(x) || x == c) by {
                    assert(old_list.push(c)[old_list.len() as int] == c);
                    if old_list.contains(x) {
                        assert(old_list.push(c)[old_list.index_of(x)] == x);
                    }
                }
                assert(seen@ =~= list@.to_set());
            } else {
                assert(old_list.contains(c));
                assert(seen@ =~= list@.to_set());
            }
            k += 1;
        }
        assert(chats@.take(k as int) =~= chats@);
        i += 1;
    }
    proof {
        assert forall|c: i64| #[trigger]
            list@.contains(c) <==> exists|w: Seq<char>| #[trigger] trackers(book, w).contains(c) by {
            if list@.contains(c) {
                let j = choose|j: int| 0 <= j < entries.len() && (#[trigger] entries@[j]).1@.contains(c);
                assert(entries@[j].1@.to_set().contains(c));
                assert(trackers(book, entries@[j].0@).contains(c));
            }
            if exists|w: Seq<char>| #[trigger] trackers(book, w).contains(c) {
                let w = choose|w: Seq<char>| #[trigger] trackers(book, w).contains(c);
                let j = choose|j: int| 0 <= j < entries.len() && (#[trigger] entries@[j]).0@ == w;
                assert(entries@[j].1@.to_set().contains(c));
            }
        }
    }
    list
}

/// Takes the rows of the wallet table into the book.
pub fn load_state_from_db(state: &mut SharedState, rows: &Vec<(String, i64)>)
    ensures
        wallet_contents(*final(state)) == loaded(wallet_contents(*old(state)), row_views(rows@)),
{
    let ghost start = wallet_contents(*state);
    let mut i: usize = 0;
    assert(row_views(rows@).take(0) =~= seq![]);
    while i < rows.len()
        invariant
            i <= rows.len(),
            wallet_contents(*state) == loaded(start, row_views(rows@).take(i as int)),
        decreases rows.len() - i,
    {
        assert(row_views(rows@).take(i + 1).drop_last() =~= row_views(rows@).take(i as int));
        subscribe(state, rows[i].0.as_str(), rows[i].1);
        i += 1;
    }
    assert(row_views(rows@).take(i as int) =~= row_views(rows@));
}

/// How the database is opened, and the statement that prepares it.
pub struct DbSetup {
    pub url: String,
    pub max_connections: u32,
    pub schema: String,
}

/// A statement on the wallet table, with the values that are bound to its two parameters.
pub struct Statement {
    pub sql: String,
    pub wallet: String,
    pub chat_id: i64,
}

/// The view of a statement.
pub struct StatementView {
    pub sql: Seq<char>,
    pub wallet: Seq<char>,
    pub chat_id: i64,
}

impl View for Statement {
    type V = StatementView;

    open spec fn view(&self) -> StatementView {
        StatementView { sql: self.sql@, wallet: self.wallet@, chat_id: self.chat_id }
    }
}

pub open spec fn insert_sql() -> Seq<char> {
    "INSERT OR IGNORE INTO user_wallets (wallet, chat_id) VALUES (?1, ?2)"@
}

pub open spec fn delete_sql() -> Seq<char> {
    "DELETE FROM user_wallets WHERE wallet = ?1 AND chat_id = ?2"@
}

/// The statement that makes the wallet table, unless it is there.
pub open spec fn schema_sql() -> Seq<char> {
    "CREATE TABLE IF NOT EXISTS user_wallets (\n            wallet TEXT NOT NULL,\n            chat_id INTEGER NOT NULL,\n            PRIMARY KEY (wallet, chat_id)\n        )"@
}

/// A database after a statement that prepares it. There may be no wallet table before; its rows
/// are a set, because wallet and chat together are its key.
pub open spec fn prepared(database: Option<Table>, sql: Seq<char>) -> Option<Table> {
    if sql == schema_sql() && database is None {
        Some(Set::empty())
    } else {
        database
    }
}

/// The statement that adds a row, unless it is there.
pub open spec fn insertion(wallet: Seq<char>, chat_id: i64) -> StatementView {
    StatementView { sql: insert_sql(), wallet, chat_id }
}

/// The statement that takes a row away.
pub open spec fn deletion(wallet: Seq<char>, chat_id: i64) -> StatementView {
    StatementView { sql: delete_sql(), wallet, chat_id }
}

/// The database file, the size of its connection pool, and the table with one row per wallet and
/// chat.
pub fn init_db() -> (r: DbSetup)
    ensures
        r.url@ == "sqlite://enterprise.db?mode=rwc"@,
        r.max_connections == 5,
        r.schema@ == schema_sql(),
{
    DbSetup {
        url: "sqlite://enterprise.db?mode=rwc".to_owned(),
        max_connections: 5,
        schema: "CREATE TABLE IF NOT EXISTS user_wallets (\n            wallet TEXT NOT NULL,\n            chat_id INTEGER NOT NULL,\n            PRIMARY KEY (wallet, chat_id)\n        )".to_owned(),
    }
}

/// The query that reads the whole wallet table.
pub fn load_query() -> (r: String)
    ensures
        r@ == "SELECT wallet, chat_id FROM user_wallets"@,
{
    "SELECT wallet, chat_id FROM user_wallets".to_owned()
}

/// The statement that stores that a chat tracks a wallet.
pub fn add_wallet_to_db(wallet: &str, chat_id: i64) -> (r: Statement)
    ensures
        r@ == insertion(wallet@, chat_id),
{
    Statement {
        sql: "INSERT OR IGNORE INTO user_wallets (wallet, chat_id) VALUES (?1, ?2)".to_owned(),
        wallet: wallet.to_owned(),
        chat_id,
    }
}

/// The statement that stores that a chat no longer tracks a wallet.
pub fn remove_wallet_from_db(wallet: &str, chat_id: i64) -> (r: Statement)
    ensures
        r@ == deletion(wallet@, chat_id),
{
    Statement {
        sql: "DELETE FROM user_wallets WHERE wallet = ?1 AND chat_id = ?2".to_owned(),
        wallet: wallet.to_owned(),
        chat_id,
    }
}

/// The table after a statement was executed on it.
pub open spec fn executed(table: Table, statement: StatementView) -> Table {
    if statement.sql == insert_sql() {
        table.insert((statement.wallet, statement.chat_id))
    } else if statement.sql == delete_sql() {
        table.remove((statement.wallet, statement.chat_id))
    } else {
        table
    }
}

/// The rows that tell what a book tells.
pub open spec fn rows_of(book: Book) -> Table {
    Set::new(|row: (Seq<char>, i64)| trackers(book, row.0).contains(row.1))
}

/// Tracking a wallet adds one row to what the book tells, and so does the statement that is
/// stored for it.
pub proof fn subscribing_adds_a_row(book: Book, wallet: Seq<char>, chat_id: i64)
    ensures
        rows_of(subscribed(book, wallet, chat_id)) == rows_of(book).insert((wallet, chat_id)),
        executed(rows_of(book), insertion(wallet, chat_id)) == rows_of(
            subscribed(book, wallet, chat_id),
        ),
{
    let after = subscribed(book, wallet, chat_id);
    assert forall|row: (Seq<char>, i64)|
        rows_of(after).contains(row) == rows_of(book).insert((wallet, chat_id)).contains(row) by {
        if row.0 == wallet {
            assert(trackers(after, wallet) == trackers(book, wallet).insert(chat_id));
        } else {
            assert(trackers(after, row.0) == trackers(book, row.0));
        }
    }
    assert(rows_of(after) =~= rows_of(book).insert((wallet, chat_id)));
}

/// Preparing the database makes an empty table where there is none, and keeps every row of one
/// that is there; preparing it again changes nothing.
pub proof fn preparing_keeps_the_rows(database: Option<Table>)
    ensures
        prepared(database, schema_sql()) == Some(
            match database {
                Some(rows) => rows,
                None => Set::empty(),
            },
        ),
        prepared(prepared(database, schema_sql()), schema_sql()) == prepared(
            database,
            schema_sql(),
        ),
{
}

/// The two statements differ.
proof fn statements_differ()
    ensures
        insert_sql() != delete_sql(),
{
    reveal_strlit("INSERT OR IGNORE INTO user_wallets (wallet, chat_id) VALUES (?1, ?2)");
    reveal_strlit("DELETE FROM user_wallets WHERE wallet = ?1 AND chat_id = ?2");
    assert(insert_sql()[0] != delete_sql()[0]);
}

/// No longer tracking a wallet takes one row from what the book tells, and so does the statement
/// that is stored for it.
pub proof fn unsubscribing_drops_a_row(book: Book, wallet: Seq<char>, chat_id: i64)
    ensures
        rows_of(unsubscribed(book, wallet, chat_id)) == rows_of(book).remove((wallet, chat_id)),
        executed(rows_of(book), deletion(wallet, chat_id)) == rows_of(
            unsubscribed(book, wallet, chat_id),
        ),
{
    statements_differ();
    let after = unsubscribed(book, wallet, chat_id);
    assert forall|row: (Seq<char>, i64)|
        rows_of(after).contains(row) == rows_of(book).remove((wallet, chat_id)).contains(row) by {
        if row.0 == wallet && book.contains_key(wallet) {
            assert(trackers(after, wallet) == book[wallet].remove(chat_id));
        } else {
            assert(trackers(after, row.0) == trackers(book, row.0));
        }
    }
    assert(rows_of(after) =~= rows_of(book).remove((wallet, chat_id)));
}

/// Loading rows adds exactly those rows to what the book tells.
pub proof fn loading_adds_the_rows(book: Book, rows: Seq<(Seq<char>, i64)>)
    ensures
        rows_of(loaded(book, rows)) == rows_of(book).union(rows.to_set()),
    decreases rows.len(),
{
    if rows.len() == 0 {
        assert(rows_of(book).union(rows.to_set()) =~= rows_of(book));
    } else {
        let front = rows.drop_last();
        loading_adds_the_rows(book, front);
        subscribing_adds_a_row(loaded(book, front), rows.last().0, rows.last().1);
        assert forall|row: (Seq<char>, i64)| rows.to_set().contains(row) == (front.to_set().contains(row) || row
            == rows.last()) by {
            if front.contains(row) {
                assert(rows[front.index_of(row)] == row);
            }
            if rows.contains(row) && row != rows.last() {
                let k = rows.index_of(row);
                assert(front[k] == row);
            }
            assert(rows[rows.len() - 1] == rows.last());
        }
        assert(rows_of(loaded(book, rows)) =~= rows_of(book).union(rows.to_set()));
    }
}

/// A restart loses nothing: a fresh book that takes in the rows of the table tells the same as
/// the book that the table was kept in step with.
pub proof fn restart_gives_the_book_back(book: Book, rows: Seq<(Seq<char>, i64)>)
    requires
        rows.to_set() == rows_of(book),
    ensures
        rows_of(loaded(no_wallets(), rows)) == rows_of(book),
{
    loading_adds_the_rows(no_wallets(), rows);
    assert(rows_of(no_wallets()) =~= Set::empty());
    assert(rows_of(loaded(no_wallets(), rows)) =~= rows_of(book));
}

/// A chat tracks a wallet if the wallet is in the book with that chat.
pub proof fn trackers_are_in_the_book(book: Book, wallet: Seq<char>, chat_id: i64)
    ensures
        trackers(book, wallet).contains(chat_id) <==> book.contains_key(wallet)
            && book[wallet].contains(chat_id),
{
}

/// After a subscription a chat tracks what it tracked before and that wallet; nothing else
/// changes, for any chat and any wallet.
pub proof fn subscriptions_add_one_tracker(
    book: Book,
    wallet: Seq<char>,
    chat_id: i64,
    w: Seq<char>,
    c: i64,
)
    ensures
        trackers(subscribed(book, wallet, chat_id), w).contains(c) <==> trackers(book, w).contains(c)
            || (w == wallet && c == chat_id),
        subscribed(book, wallet, chat_id).contains_key(w) <==> book.contains_key(w) || w == wallet,
{
}

/// After the end of a subscription a chat tracks what it tracked before without that wallet;
/// nothing else changes, for any chat and any wallet.
pub proof fn unsubscriptions_drop_one_tracker(
    book: Book,
    wallet: Seq<char>,
    chat_id: i64,
    w: Seq<char>,
    c: i64,
)
    ensures
        trackers(unsubscribed(book, wallet, chat_id), w).contains(c) <==> trackers(
            book,
            w,
        ).contains(c) && !(w == wallet && c == chat_id),
        unsubscribed(book, wallet, chat_id).contains_key(w) <==> book.contains_key(w),
{
}

/// After loading rows a chat tracks what it tracked before and what a row says.
pub proof fn loaded_rows_are_tracked(book: Book, rows: Seq<(Seq<char>, i64)>, w: Seq<char>, c: i64)
    ensures
        trackers(loaded(book, rows), w).contains(c) <==> trackers(book, w).contains(c)
            || rows.contains((w, c)),
    decreases rows.len(),
{
    if rows.len() > 0 {
        let front = rows.drop_last();
        loaded_rows_are_tracked(book, front, w, c);
        if front.contains((w, c)) {
            assert(rows[front.index_of((w, c))] == (w, c));
        }
        if rows.contains((w, c)) && (w, c) != rows.last() {
            assert(front[rows.index_of((w, c))] == (w, c));
        }
        assert(rows[rows.len() - 1] == rows.last());
    }
}

/// The rows that tell a book are those of its wallets and chats.
pub proof fn rows_are_wallets_with_chats(book: Book, w: Seq<char>, c: i64)
    ensures
        rows_of(book).contains((w, c)) <==> book.contains_key(w) && book[w].contains(c),
{
}

/// The stored statements do to the table what they say: one adds its row, the other takes it away.
pub proof fn statements_change_their_row(table: Table, wallet: Seq<char>, chat_id: i64)
    ensures
        executed(table, insertion(wallet, chat_id)) == table.insert((wallet, chat_id)),
        executed(table, deletion(wallet, chat_id)) == table.remove((wallet, chat_id)),
{
    statements_differ();
}

/// A list of the wallets of a chat names each wallet that it tracks, once, and no other.
pub proof fn tracked_lists_are_complete(
    list: Seq<Seq<char>>,
    book: Book,
    chat_id: i64,
    w: Seq<char>,
    i: int,
    j: int,
)
    requires
        lists_tracked(list, book, chat_id),
    ensures
        0 <= i < j < list.len() ==> list[i] != list[j],
        book.contains_key(w) && book[w].contains(chat_id) ==> list.contains(w),
        list.contains(w) ==> book.contains_key(w) && book[w].contains(chat_id),
{
}

/// A list of the users names each chat that tracks any wallet, once, and no other.
pub proof fn audiences_are_complete(list: Seq<i64>, book: Book, w: Seq<char>, c: i64, i: int, j: int)
    requires
        lists_audience(list, book),
    ensures
        0 <= i < j < list.len() ==> list[i] != list[j],
        book.contains_key(w) && book[w].contains(c) ==> list.contains(c),
        list.contains(c) ==> exists|v: Seq<char>|
            book.contains_key(v) && #[trigger] book[v].contains(c),
{
    if book.contains_key(w) && book[w].contains(c) {
        assert(trackers(book, w).contains(c));
    }
    if list.contains(c) {
        let v = choose|v: Seq<char>| #[trigger] trackers(book, v).contains(c);
        assert(book.contains_key(v) && book[v].contains(c));
    }
}

/// A list that tells a book has an entry for each wallet, with exactly the chats of that wallet.
pub proof fn listed_books_are_complete(
    entries: Seq<(String, Vec<i64>)>,
    book: Book,
    w: Seq<char>,
    c: i64,
)
    requires
        lists_book(entries, book),
    ensures
        book.contains_key(w) <==> exists|i: int|
            0 <= i < entries.len() && (#[trigger] entries[i]).0@ == w,
        (book.contains_key(w) && book[w].contains(c)) <==> exists|i: int|
            0 <= i < entries.len() && (#[trigger] entries[i]).0@ == w && entries[i].1@.contains(c),
{
    if book.contains_key(w) && book[w].contains(c) {
        let i = choose|i: int| 0 <= i < entries.len() && (#[trigger] entries[i]).0@ == w;
        assert(entries[i].1@.to_set().contains(c));
    }
    if exists|i: int|
        0 <= i < entries.len() && (#[trigger] entries[i]).0@ == w && entries[i].1@.contains(c) {
        let i = choose|i: int|
            0 <= i < entries.len() && (#[trigger] entries[i]).0@ == w && entries[i].1@.contains(c);
        assert(entries[i].1@.to_set().contains(c));
    }
}

/// The outputs on record for a wallet are those that were recorded last.
pub proof fn records_are_read_back(
    record: Map<Seq<char>, Set<Seq<char>>>,
    wallet: Seq<char>,
    ids: Set<Seq<char>>,
    other: Seq<char>,
)
    ensures
        seen_outputs(record.insert(wallet, ids), wallet) == ids,
        other != wallet ==> seen_outputs(record.insert(wallet, ids), other) == seen_outputs(
            record,
            other,
        ),
        !record.contains_key(other) ==> seen_outputs(record, other).is_empty(),
{
}

/// Rows are viewed one by one, and none is left out; a new book and a new record are empty.
pub proof fn rows_are_viewed_one_by_one(rows: Seq<(String, i64)>, i: int, w: Seq<char>)
    ensures
        row_views(rows).len() == rows.len(),
        0 <= i < rows.len() ==> row_views(rows)[i] == (rows[i].0@, rows[i].1),
        !no_wallets().contains_key(w),
        !no_outputs().contains_key(w),
{
}

/// A statement names its own wallet and chat, and adds or takes away just the row of both.
pub proof fn statements_bind_wallet_and_chat(wallet: Seq<char>, chat_id: i64, statement: Statement)
    ensures
        insertion(wallet, chat_id).sql
            == "INSERT OR IGNORE INTO user_wallets (wallet, chat_id) VALUES (?1, ?2)"@,
        deletion(wallet, chat_id).sql
            == "DELETE FROM user_wallets WHERE wallet = ?1 AND chat_id = ?2"@,
        insertion(wallet, chat_id).wallet == wallet && insertion(wallet, chat_id).chat_id == chat_id,
        deletion(wallet, chat_id).wallet == wallet && deletion(wallet, chat_id).chat_id == chat_id,
        statement@.sql == statement.sql@,
        statement@.wallet == statement.wallet@,
        statement@.chat_id == statement.chat_id,
{
}

} // verus!
