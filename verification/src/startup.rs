//! What the bot needs before it runs: its settings, the wallets of an old file, and the menu.

use crate::state::{
    add_wallet_to_db, executed, insertion, lists_book, rows_of, Book, Statement, StatementView, Table,
};
use crate::text::{characters, decimal, digit_char, signed_decimal};
use vstd::prelude::*;

verus! {

// ---- Settings

/// Why the bot cannot run.
#[derive(Debug)]
pub enum BotError {
    /// This setting is missing.
    EnvVarMissing(String),
    /// The database cannot be opened or prepared.
    DatabaseInit(String),
    /// The client of the node cannot be made.
    RpcConnection(String),
}

/// The text of an error.
pub open spec fn error_text(e: BotError) -> Seq<char> {
    match e {
        BotError::EnvVarMissing(what) => "Environment Variable Missing: "@ + what@,
        BotError::DatabaseInit(what) => "Database Initialization Failed: "@ + what@,
        BotError::RpcConnection(what) => "RPC Connection Failed: "@ + what@,
    }
}

impl BotError {
    /// The text of the error.
    pub fn message(&self) -> (r: String)
        ensures
            r@ == error_text(*self),
    {
        let (mut out, what) = match self {
            BotError::EnvVarMissing(what) => ("Environment Variable Missing: ".to_owned(), what),
            BotError::DatabaseInit(what) => ("Database Initialization Failed: ".to_owned(), what),
            BotError::RpcConnection(what) => ("RPC Connection Failed: ".to_owned(), what),
        };
        out.append(what.as_str());
        out
    }
}

/// What a decimal digit stands for.
pub open spec fn digit_value(c: char) -> Option<int> {
    if '0' <= c && c <= '9' {
        Some(c as int - '0' as int)
    } else {
        None
    }
}

/// Whether a text is made of decimal digits only.
pub open spec fn all_digits(digits: Seq<char>) -> bool {
    forall|i: int| 0 <= i < digits.len() ==> digit_value(#[trigger] digits[i]) is Some
}

/// The number that digits stand for in base ten.
pub open spec fn digits_value(digits: Seq<char>) -> int
    decreases digits.len(),
{
    if digits.len() == 0 {
        0
    } else {
        digits_value(digits.drop_last()) * 10 + digit_value(digits.last())->0
    }
}

/// The integer that a text stands for: digits, with a sign in front or without.
pub open spec fn integer_of(text: Seq<char>) -> Option<int> {
    let signed = text.len() > 0 && (text[0] == '-' || text[0] == '+');
    let digits = if signed {
        text.skip(1)
    } else {
        text
    };
    if digits.len() == 0 || !all_digits(digits) {
        None
    } else if text[0] == '-' {
        Some(-digits_value(digits))
    } else {
        Some(digits_value(digits))
    }
}

/// The user who is the admin: nobody has the number zero, which stands for a setting that is no
/// number.
pub open spec fn admin_of(setting: Seq<char>) -> int {
    match integer_of(setting) {
        Some(n) if i64::MIN <= n <= i64::MAX => n,
        _ => 0,
    }
}

/// Reads the number of the admin from its setting.
pub fn read_admin(setting: &str) -> (r: i64)
    ensures
        r == admin_of(setting@),
{
    let chars = characters(setting);
    if chars.len() == 0 {
        return 0;
    }
    let signed = chars[0] == '-' || chars[0] == '+';
    let negative = chars[0] == '-';
    let start: usize = if signed {
        1
    } else {
        0
    };
    let ghost digits = if signed {
        setting@.skip(1)
    } else {
        setting@
    };
    if start == chars.len() {
        return 0;
    }
    // No number that is kept is above this one.
    let bound: u128 = 0x1_0000_0000_0000_0000;
    let mut value: u128 = 0;
    let mut too_large = false;
    let mut i: usize = start;
    assert(digits.take(0) =~= Seq::empty());
    while i < chars.len()
        invariant
            start <= i <= chars.len(),
            start == 0 || start == 1,
            setting@ == chars@,
            signed == (setting@[0] == '-' || setting@[0] == '+'),
            digits == (if signed {
                setting@.skip(1)
            } else {
                setting@
            }),
            digits.len() == chars.len() - start,
            forall|j: int| 0 <= j < digits.len() ==> #[trigger] digits[j] == chars@[j + start],
            all_digits(digits.take(i - start)),
            bound == 0x1_0000_0000_0000_0000,
            too_large ==> digits_value(digits.take(i - start)) >= bound,
            !too_large ==> value < bound && digits_value(digits.take(i - start)) == value,
        decreases chars.len() - i,
    {
        let c = chars[i];
        let ghost before = digits.take(i - start);
        let ghost after = digits.take(i - start + 1);
        assert(after.drop_last() =~= before);
        assert(after.last() == c) by {
            assert(digits[i - start] == chars@[i as int]);
        }
        if c < '0' || c > '9' {
            assert(!all_digits(digits)) by {
                assert(digit_value(digits[i - start]) is None);
            }
            return 0;
        }
        assert(all_digits(after)) by {
            assert forall|j: int| 0 <= j < after.len() implies digit_value(#[trigger] after[j]) is Some by {
                if j < before.len() {
                    assert(after[j] == before[j]);
                }
            }
        }
        let d: u128 = (c as u32 - '0' as u32) as u128;
        assert(digit_value(c) == Some(d as int));
        if !too_large {
            value = value * 10 + d;
            if value >= bound {
                too_large = true;
            }
        }
        i += 1;
    }
    assert(digits.take(i - start) =~= digits);
    if too_large {
        0
    } else if negative {
        if value <= 0x8000_0000_0000_0000 {
            (-(value as i128)) as i64
        } else {
            0
        }
    } else if value <= 0x7fff_ffff_ffff_ffff {
        value as i64
    } else {
        0
    }
}

/// The number of the admin, from a setting that must be there.
pub fn admin_setting(setting: Option<&str>) -> (r: Result<i64, BotError>)
    ensures
        match setting {
            Some(s) => r matches Ok(n) && n == admin_of(s@),
            None => r matches Err(BotError::EnvVarMissing(what)) && what@ == "ADMIN_ID"@,
        },
{
    match setting {
        Some(s) => Ok(read_admin(s)),
        None => Err(BotError::EnvVarMissing("ADMIN_ID".to_owned())),
    }
}

/// The token of the bot, from a setting that must be there.
pub fn token_setting(setting: Option<&str>) -> (r: Result<String, BotError>)
    ensures
        match setting {
            Some(s) => r matches Ok(token) && token@ == s@,
            None => r matches Err(BotError::EnvVarMissing(what)) && what@ == "BOT_TOKEN"@,
        },
{
    match setting {
        Some(s) => Ok(s.to_owned()),
        None => Err(BotError::EnvVarMissing("BOT_TOKEN".to_owned())),
    }
}

/// The address of the node.
pub fn node_setting(setting: Option<&str>) -> (r: String)
    ensures
        r@ == (match setting {
            Some(s) => s@,
            None => "ws://127.0.0.1:18110"@,
        }),
{
    match setting {
        Some(s) => s.to_owned(),
        None => "ws://127.0.0.1:18110".to_owned(),
    }
}

/// The digits of a number stand for that number.
pub proof fn decimal_stands_for_itself(n: nat)
    ensures
        all_digits(decimal(n)),
        decimal(n).len() > 0,
        digits_value(decimal(n)) == n,
    decreases n,
{
    let text = decimal(n);
    let d = n % 10;
    assert(digit_value(digit_char(d)) == Some(d as int));
    if n < 10 {
        assert(text.drop_last() =~= Seq::empty());
        assert(digits_value(text.drop_last()) == 0);
    } else {
        decimal_stands_for_itself(n / 10);
        assert(text.drop_last() =~= decimal(n / 10));
        assert forall|i: int| 0 <= i < text.len() implies digit_value(#[trigger] text[i]) is Some by {
            if i < decimal(n / 10).len() {
                assert(text[i] == decimal(n / 10)[i]);
            }
        }
    }
}

/// A setting that is a number as this library writes it names the user of that number.
pub proof fn admin_setting_is_read_back(n: i64)
    ensures
        admin_of(signed_decimal(n as int)) == n,
{
    let text = signed_decimal(n as int);
    if n < 0 {
        reveal_strlit("-");
        let m = (-(n as int)) as nat;
        decimal_stands_for_itself(m);
        assert("-"@.len() == 1 && "-"@[0] == '-');
        assert(text.skip(1) =~= decimal(m));
    } else {
        decimal_stands_for_itself(n as nat);
        assert(digit_value(text[0]) is Some);
    }
}

// ---- The wallets of an old file

/// What `serde_json` reads from the text of a wallet file: the chats of each wallet. Nothing, if
/// the text is not such a file.
pub uninterp spec fn wallet_file(text: Seq<char>) -> Option<Map<Seq<char>, Set<i64>>>;

/// `serde_json::from_str` into a map from texts to sets of numbers, handed out as a list in no
/// particular order.
#[verifier::external_body]
fn read_wallet_file(text: &str) -> (r: Option<Vec<(String, Vec<i64>)>>)
    ensures
        r is Some <==> wallet_file(text@) is Some,
        r matches Some(entries) ==> lists_book(entries@, wallet_file(text@)->0),
{
    serde_json::from_str::<std::collections::HashMap<String, std::collections::HashSet<i64>>>(text)
        .ok()
        .map(|book| book.into_iter().map(|(w, c)| (w, c.into_iter().collect())).collect())
}

/// The rows for the first chats of a wallet.
pub open spec fn chat_rows(wallet: Seq<char>, chats: Seq<i64>) -> Seq<(Seq<char>, i64)> {
    Seq::new(chats.len(), |i: int| (wallet, chats[i]))
}

/// The rows for a list of wallets and their chats, one after another.
pub open spec fn listed_rows(entries: Seq<(String, Vec<i64>)>) -> Seq<(Seq<char>, i64)>
    decreases entries.len(),
{
    if entries.len() == 0 {
        Seq::empty()
    } else {
        listed_rows(entries.drop_last()) + chat_rows(entries.last().0@, entries.last().1@)
    }
}

/// The statements that store rows.
pub open spec fn insertions(rows: Seq<(Seq<char>, i64)>) -> Seq<StatementView> {
    Seq::new(rows.len(), |i: int| insertion(rows[i].0, rows[i].1))
}

pub open spec fn statement_views(statements: Seq<Statement>) -> Seq<StatementView> {
    Seq::new(statements.len(), |i: int| statements[i]@)
}

/// The statements that store a list of wallets and their chats.
pub fn store_entries(entries: &Vec<(String, Vec<i64>)>) -> (r: Vec<Statement>)
    ensures
        statement_views(r@) == insertions(listed_rows(entries@)),
{
    let mut r: Vec<Statement> = Vec::new();
    let mut i: usize = 0;
    assert(statement_views(r@) =~= insertions(listed_rows(entries@.take(0))));
    while i < entries.len()
        invariant
            i <= entries.len(),
            statement_views(r@) == insertions(listed_rows(entries@.take(i as int))),
        decreases entries.len() - i,
    {
        let ghost front = listed_rows(entries@.take(i as int));
        let ghost wallet = entries@[i as int].0@;
        let ghost chats = entries@[i as int].1@;
        let mut k: usize = 0;
        assert(front + chat_rows(wallet, chats.take(0)) =~= front);
        while k < entries[i].1.len()
            invariant
                i < entries.len(),
                wallet == entries@[i as int].0@,
                chats == entries@[i as int].1@,
                k <= chats.len(),
                statement_views(r@) == insertions(front + chat_rows(wallet, chats.take(k as int))),
            decreases chats.len() - k,
        {
            let ghost rows = front + chat_rows(wallet, chats.take(k as int));
            let ghost before = statement_views(r@);
            let statement = add_wallet_to_db(entries[i].0.as_str(), entries[i].1[k]);
            r.push(statement);
            assert(statement_views(r@) =~= before.push(insertion(wallet, chats[k as int])));
            assert(front + chat_rows(wallet, chats.take(k + 1)) =~= rows.push(
                (wallet, chats[k as int]),
            ));
            assert(insertions(rows.push((wallet, chats[k as int]))) =~= insertions(rows).push(
                insertion(wallet, chats[k as int]),
            ));
            k += 1;
        }
        assert(chats.take(k as int) =~= chats);
        assert(entries@.take(i + 1).drop_last() =~= entries@.take(i as int));
        i += 1;
    }
    assert(entries@.take(i as int) =~= entries@);
    r
}

/// Whether the statements store exactly what a book tells, each row once.
pub open spec fn stores_book(statements: Seq<StatementView>, book: Book) -> bool {
    exists|rows: Seq<(Seq<char>, i64)>|
        #![trigger insertions(rows)]
        rows.no_duplicates() && rows.to_set() == rows_of(book) && statements == insertions(rows)
}

/// The statements that move the wallets of an old file into the table; nothing, if the text is not
/// such a file.
pub fn plan_migration(text: &str) -> (r: Option<Vec<Statement>>)
    ensures
        r is Some <==> wallet_file(text@) is Some,
        r matches Some(statements) ==> stores_book(
            statement_views(statements@),
            wallet_file(text@)->0,
        ),
{
    match read_wallet_file(text) {
        None => None,
        Some(entries) => {
            let statements = store_entries(&entries);
            proof {
                listing_tells_the_rows(entries@, wallet_file(text@)->0);
            }
            Some(statements)
        },
    }
}

/// The rows of a listing are those of its entries: one for each wallet and each of its chats.
pub proof fn listed_row_has_an_entry(entries: Seq<(String, Vec<i64>)>, row: (Seq<char>, i64))
    ensures
        listed_rows(entries).contains(row) <==> exists|i: int|
            0 <= i < entries.len() && (#[trigger] entries[i]).0@ == row.0 && entries[i].1@.contains(
                row.1,
            ),
    decreases entries.len(),
{
    if entries.len() > 0 {
        let front = entries.drop_last();
        let last = entries.last();
        let rows = listed_rows(front);
        let more = chat_rows(last.0@, last.1@);
        listed_row_has_an_entry(front, row);
        if (rows + more).contains(row) {
            let p = (rows + more).index_of(row);
            if p < rows.len() {
                assert(rows[p] == row);
                let i = choose|i: int|
                    0 <= i < front.len() && (#[trigger] front[i]).0@ == row.0 && front[i].1@.contains(
                        row.1,
                    );
                assert(entries[i] == front[i]);
            } else {
                assert(more[p - rows.len()] == row);
                assert(last.1@[p - rows.len()] == row.1);
                assert(entries[entries.len() - 1].1@.contains(row.1));
            }
        }
        if exists|i: int|
            0 <= i < entries.len() && (#[trigger] entries[i]).0@ == row.0 && entries[i].1@.contains(
                row.1,
            ) {
            let i = choose|i: int|
                0 <= i < entries.len() && (#[trigger] entries[i]).0@ == row.0
                    && entries[i].1@.contains(row.1);
            if i < front.len() {
                assert(front[i] == entries[i]);
                assert(rows.contains(row));
                assert((rows + more)[rows.index_of(row)] == row);
            } else {
                let k = last.1@.index_of(row.1);
                assert(more[k] == row);
                assert((rows + more)[rows.len() + k] == row);
            }
        }
    }
}

/// The rows of a listing are different, if its wallets are and the chats of each wallet are.
proof fn listed_rows_differ(entries: Seq<(String, Vec<i64>)>)
    requires
        forall|i: int, j: int|
            0 <= i < j < entries.len() ==> (#[trigger] entries[i]).0@ != (#[trigger] entries[j]).0@,
        forall|i: int| 0 <= i < entries.len() ==> (#[trigger] entries[i]).1@.no_duplicates(),
    ensures
        listed_rows(entries).no_duplicates(),
    decreases entries.len(),
{
    if entries.len() > 0 {
        let front = entries.drop_last();
        let last = entries.last();
        let rows = listed_rows(front);
        let more = chat_rows(last.0@, last.1@);
        listed_rows_differ(front);
        assert(entries[entries.len() - 1].1@.no_duplicates());
        assert forall|a: int, b: int| 0 <= a < b < (rows + more).len() implies (rows + more)[a] != (rows
            + more)[b] by {
            if b < rows.len() {
                assert(rows[a] != rows[b]);
            } else if a >= rows.len() {
                assert(last.1@[a - rows.len()] != last.1@[b - rows.len()]);
            } else {
                assert(rows.contains(rows[a]));
                listed_row_has_an_entry(front, rows[a]);
                let i = choose|i: int| 0 <= i < front.len() && (#[trigger] front[i]).0@ == rows[a].0
                    && front[i].1@.contains(rows[a].1);
                assert(entries[i].0@ != entries[entries.len() - 1].0@);
                assert(more[b - rows.len()].0 == last.0@);
            }
        }
    }
}

/// The rows of a list that tells a book are the rows that the book tells, each of them once.
pub proof fn listing_tells_the_rows(entries: Seq<(String, Vec<i64>)>, book: Book)
    requires
        lists_book(entries, book),
    ensures
        listed_rows(entries).no_duplicates(),
        listed_rows(entries).to_set() == rows_of(book),
{
    listed_rows_differ(entries);
    let rows = listed_rows(entries);
    assert forall|row: (Seq<char>, i64)| rows.to_set().contains(row) == rows_of(book).contains(row) by {
        listed_row_has_an_entry(entries, row);
        if rows.contains(row) {
            let i = choose|i: int|
                0 <= i < entries.len() && (#[trigger] entries[i]).0@ == row.0
                    && entries[i].1@.contains(row.1);
            assert(entries[i].1@.to_set().contains(row.1));
        }
        if rows_of(book).contains(row) {
            assert(book.contains_key(row.0));
            let i = choose|i: int| 0 <= i < entries.len() && (#[trigger] entries[i]).0@ == row.0;
            assert(entries[i].1@.to_set().contains(row.1));
        }
    }
    assert(rows.to_set() =~= rows_of(book));
}

/// The table after several statements, one after another.
pub open spec fn all_executed(table: Table, statements: Seq<StatementView>) -> Table
    decreases statements.len(),
{
    if statements.len() == 0 {
        table
    } else {
        executed(all_executed(table, statements.drop_last()), statements.last())
    }
}

proof fn insertions_add_their_rows(table: Table, rows: Seq<(Seq<char>, i64)>)
    ensures
        all_executed(table, insertions(rows)) == table.union(rows.to_set()),
    decreases rows.len(),
{
    let statements = insertions(rows);
    if rows.len() == 0 {
        assert(table.union(rows.to_set()) =~= table);
    } else {
        let front = rows.drop_last();
        insertions_add_their_rows(table, front);
        assert(statements.drop_last() =~= insertions(front));
        assert forall|row: (Seq<char>, i64)| rows.contains(row) == (front.contains(row) || row == rows.last()) by {
            if front.contains(row) {
                assert(rows[front.index_of(row)] == row);
            }
            if rows.contains(row) && row != rows.last() {
                assert(front[rows.index_of(row)] == row);
            }
            assert(rows[rows.len() - 1] == rows.last());
        }
        assert(all_executed(table, statements) =~= table.union(rows.to_set()));
    }
}

/// Moving an old file into the table adds what the file tells, and loses nothing that the table
/// told before.
pub proof fn migration_adds_the_file(table: Table, statements: Seq<StatementView>, book: Book)
    requires
        stores_book(statements, book),
    ensures
        all_executed(table, statements) == table.union(rows_of(book)),
{
    let rows = choose|rows: Seq<(Seq<char>, i64)>|
        #![trigger insertions(rows)]
        rows.no_duplicates() && rows.to_set() == rows_of(book) && statements == insertions(rows);
    insertions_add_their_rows(table, rows);
}

// ---- The menu, and the watch over the node

/// A command in the menu.
pub struct MenuEntry {
    pub command: String,
    pub description: String,
}

/// The commands in the menu of every user.
pub open spec fn public_menu() -> Seq<(Seq<char>, Seq<char>)> {
    seq![
        ("start"@, "Start the bot and show help"@),
        ("add"@, "Track a wallet"@),
        ("remove"@, "Stop tracking a wallet"@),
        ("balance"@, "Check live balance & UTXOs"@),
        ("blocks"@, "Count unspent mined blocks"@),
        ("miner"@, "Estimate solo-mining hashrate"@),
        ("network"@, "View node & network stats"@),
    ]
}

fn menu_entry(command: &str, description: &str) -> (r: MenuEntry)
    ensures
        r.command@ == command@,
        r.description@ == description@,
{
    MenuEntry { command: command.to_owned(), description: description.to_owned() }
}

/// The commands in the menu of every user.
pub fn public_commands() -> (r: Vec<MenuEntry>)
    ensures
        Seq::new(r@.len(), |i: int| (r@[i].command@, r@[i].description@)) == public_menu(),
{
    let mut r: Vec<MenuEntry> = Vec::new();
    r.push(menu_entry("start", "Start the bot and show help"));
    r.push(menu_entry("add", "Track a wallet"));
    r.push(menu_entry("remove", "Stop tracking a wallet"));
    r.push(menu_entry("balance", "Check live balance & UTXOs"));
    r.push(menu_entry("blocks", "Count unspent mined blocks"));
    r.push(menu_entry("miner", "Estimate solo-mining hashrate"));
    r.push(menu_entry("network", "View node & network stats"));
    assert(Seq::new(r@.len(), |i: int| (r@[i].command@, r@[i].description@)) =~= public_menu());
    r
}

/// What to tell the admin, and then to connect again, if the node did not answer.
pub fn node_alert(answered: bool) -> (r: Option<String>)
    ensures
        answered ==> r is None,
        !answered ==> (r matches Some(t) && t@
            == "🚨 <b>SYSTEM ALERT:</b> Kaspa Node connection lost! Attempting reconnect..."@),
{
    if answered {
        None
    } else {
        Some(
            "🚨 <b>SYSTEM ALERT:</b> Kaspa Node connection lost! Attempting reconnect...".to_owned(),
        )
    }
}

// ---- What settings and files are read as

/// A setting of digits is the number that they stand for, with a sign or without, as long as it can
/// be kept; any other setting names nobody.
pub proof fn settings_are_read_as_numbers(digits: Seq<char>)
    ensures
        all_digits(digits) <==> forall|i: int|
            0 <= i < digits.len() ==> '0' <= #[trigger] digits[i] && digits[i] <= '9',
        digits.len() > 0 && all_digits(digits) ==> {
            &&& integer_of(digits) == Some(digits_value(digits))
            &&& integer_of(seq!['+'] + digits) == Some(digits_value(digits))
            &&& integer_of(seq!['-'] + digits) == Some(-digits_value(digits))
        },
        digits.len() == 0 || !all_digits(digits) ==> {
            &&& integer_of(seq!['+'] + digits) is None
            &&& integer_of(seq!['-'] + digits) is None
        },
{
    assert((seq!['+'] + digits).skip(1) =~= digits);
    assert((seq!['-'] + digits).skip(1) =~= digits);
    if digits.len() > 0 && all_digits(digits) {
        assert(digit_value(digits[0]) is Some);
    }
    if all_digits(digits) {
        assert forall|i: int| 0 <= i < digits.len() implies '0' <= #[trigger] digits[i] && digits[i]
            <= '9' by {
            assert(digit_value(digits[i]) is Some);
        }
    }
}

/// A character that is no digit makes a setting no number, unless it is the sign in front.
pub proof fn other_characters_are_no_digits(text: Seq<char>, i: int)
    requires
        0 <= i < text.len(),
        !('0' <= text[i] && text[i] <= '9'),
        i == 0 ==> text[0] != '-' && text[0] != '+',
    ensures
        integer_of(text) is None,
        admin_of(text) == 0,
{
    let signed = text[0] == '-' || text[0] == '+';
    if signed {
        assert(text.skip(1)[i - 1] == text[i]);
        assert(digit_value(text.skip(1)[i - 1]) is None);
    } else {
        assert(digit_value(text[i]) is None);
    }
}

/// Numbers that can be kept are kept, and others name nobody.
pub proof fn numbers_within_bounds_are_kept(text: Seq<char>)
    ensures
        integer_of(text) matches Some(n) && i64::MIN <= n <= i64::MAX ==> admin_of(text)
            == integer_of(text)->0,
        integer_of(text) is None ==> admin_of(text) == 0,
        integer_of(text) matches Some(n) && !(i64::MIN <= n <= i64::MAX) ==> admin_of(text) == 0,
{
}

/// One more digit makes the number ten times as large, and adds what the digit stands for.
pub proof fn digits_count_by_their_place(digits: Seq<char>, c: char)
    requires
        '0' <= c && c <= '9',
    ensures
        digits_value(Seq::empty()) == 0,
        digits_value(digits.push(c)) == 10 * digits_value(digits) + (c as int - '0' as int),
{
    assert(digits.push(c).drop_last() =~= digits);
}

/// An error tells what failed, and why.
pub proof fn errors_tell_what_failed(what: String)
    ensures
        error_text(BotError::EnvVarMissing(what)) == "Environment Variable Missing: "@ + what@,
        error_text(BotError::DatabaseInit(what)) == "Database Initialization Failed: "@ + what@,
        error_text(BotError::RpcConnection(what)) == "RPC Connection Failed: "@ + what@,
{
}

/// There is one row for each chat of each entry, and one statement for each row, in order.
pub proof fn every_row_is_stored(
    entries: Seq<(String, Vec<i64>)>,
    entry: (String, Vec<i64>),
    rows: Seq<(Seq<char>, i64)>,
    statements: Seq<Statement>,
    k: int,
)
    ensures
        listed_rows(Seq::empty()) == Seq::<(Seq<char>, i64)>::empty(),
        listed_rows(entries.push(entry)) == listed_rows(entries) + entry.1@.map_values(
            |c: i64| (entry.0@, c),
        ),
        insertions(rows).len() == rows.len(),
        0 <= k < rows.len() ==> insertions(rows)[k] == insertion(rows[k].0, rows[k].1),
        statement_views(statements).len() == statements.len(),
        0 <= k < statements.len() ==> statement_views(statements)[k] == statements[k]@,
{
    assert(entries.push(entry).drop_last() =~= entries);
    assert(chat_rows(entry.0@, entry.1@) =~= entry.1@.map_values(|c: i64| (entry.0@, c)));
}

} // verus!
