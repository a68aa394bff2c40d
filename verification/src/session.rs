//! What holds after any number of commands.

use crate::commands::{
    answers, book_after, command_effects, other_chats_are_left_alone,
    standard_users_stay_within_the_limit, stored, table_stays_in_step, tracked_set, Command,
    EffectView, WALLET_LIMIT,
};
use crate::state::{
    lists_audience, lists_tracked, loaded, no_wallets, restart_gives_the_book_back, rows_of,
    Book, Table,
};
use vstd::prelude::*;

verus! {

/// A command that was carried out, and what it brought about.
pub struct SessionStep {
    pub cmd: Command,
    pub chat_id: i64,
    pub is_admin: bool,
    pub monitoring: bool,
    pub now: Seq<char>,
    pub edit: Option<i32>,
    pub effects: Seq<EffectView>,
}

/// The book after all steps.
pub open spec fn session_book(book: Book, steps: Seq<SessionStep>) -> Book
    decreases steps.len(),
{
    if steps.len() == 0 {
        book
    } else {
        let step = steps.last();
        book_after(session_book(book, steps.drop_last()), step.cmd, step.chat_id, step.is_admin)
    }
}

/// The table after the statements of all steps were executed.
pub open spec fn session_table(table: Table, steps: Seq<SessionStep>) -> Table
    decreases steps.len(),
{
    if steps.len() == 0 {
        table
    } else {
        stored(session_table(table, steps.drop_last()), steps.last().effects)
    }
}

/// Whether each step brought about what its command brings about on the book of that moment.
pub open spec fn is_session(book: Book, steps: Seq<SessionStep>) -> bool
    decreases steps.len(),
{
    if steps.len() == 0 {
        true
    } else {
        let step = steps.last();
        &&& is_session(book, steps.drop_last())
        &&& answers(
            step.effects,
            session_book(book, steps.drop_last()),
            step.monitoring,
            step.cmd,
            step.chat_id,
            step.is_admin,
            step.now,
            step.edit,
        )
    }
}

/// However many commands were carried out, the table tells what the book tells.
pub proof fn table_follows_the_book(book: Book, steps: Seq<SessionStep>)
    requires
        is_session(book, steps),
    ensures
        session_table(rows_of(book), steps) == rows_of(session_book(book, steps)),
    decreases steps.len(),
{
    if steps.len() > 0 {
        let step = steps.last();
        let before = session_book(book, steps.drop_last());
        table_follows_the_book(book, steps.drop_last());
        let (mine, users) = choose|mine: Seq<Seq<char>>, users: Seq<i64>|
            #![trigger lists_tracked(mine, before, step.chat_id), lists_audience(users, before)]
            lists_tracked(mine, before, step.chat_id) && lists_audience(users, before)
                && step.effects == command_effects(
                step.cmd,
                step.chat_id,
                step.is_admin,
                step.now,
                step.edit,
                mine,
                users,
                before.dom().len() as usize,
                step.monitoring,
            );
        table_stays_in_step(
            before,
            step.cmd,
            step.chat_id,
            step.is_admin,
            step.now,
            step.edit,
            mine,
            users,
            before.dom().len() as usize,
            step.monitoring,
        );
    }
}

/// Nothing is lost in a restart: a bot that began with an empty book and an empty table, carried
/// out any commands, and was started again from the rows of its table, tells what it told before.
pub proof fn sessions_survive_a_restart(steps: Seq<SessionStep>, rows: Seq<(Seq<char>, i64)>)
    requires
        is_session(no_wallets(), steps),
        rows.to_set() == session_table(Set::empty(), steps),
    ensures
        rows_of(loaded(no_wallets(), rows)) == rows_of(session_book(no_wallets(), steps)),
{
    assert(rows_of(no_wallets()) =~= Set::empty());
    table_follows_the_book(no_wallets(), steps);
    restart_gives_the_book_back(session_book(no_wallets(), steps), rows);
}

/// A finite book stays finite.
proof fn books_stay_finite(book: Book, steps: Seq<SessionStep>)
    requires
        book.dom().finite(),
    ensures
        session_book(book, steps).dom().finite(),
    decreases steps.len(),
{
    if steps.len() > 0 {
        books_stay_finite(book, steps.drop_last());
    }
}

/// A chat in which only standard users speak never tracks more wallets than the limit allows.
pub proof fn chats_stay_within_the_limit(book: Book, steps: Seq<SessionStep>, chat_id: i64)
    requires
        book.dom().finite(),
        tracked_set(book, chat_id).len() <= WALLET_LIMIT,
        forall|i: int|
            0 <= i < steps.len() && (#[trigger] steps[i]).chat_id == chat_id ==> !steps[i].is_admin,
    ensures
        tracked_set(session_book(book, steps), chat_id).len() <= WALLET_LIMIT,
    decreases steps.len(),
{
    if steps.len() > 0 {
        let step = steps.last();
        let front = steps.drop_last();
        let before = session_book(book, front);
        let after = session_book(book, steps);
        assert forall|i: int| 0 <= i < front.len() && (#[trigger] front[i]).chat_id == chat_id implies !front[i].is_admin by {
            assert(front[i] == steps[i]);
        }
        chats_stay_within_the_limit(book, front, chat_id);
        books_stay_finite(book, front);
        if step.chat_id == chat_id {
            assert(!steps[steps.len() - 1].is_admin);
            standard_users_stay_within_the_limit(before, step.cmd, chat_id);
        } else {
            assert forall|w: Seq<char>|
                tracked_set(after, chat_id).contains(w) == tracked_set(before, chat_id).contains(w) by {
                other_chats_are_left_alone(
                    before,
                    step.cmd,
                    step.chat_id,
                    step.is_admin,
                    chat_id,
                    w,
                );
            }
            assert(tracked_set(after, chat_id) =~= tracked_set(before, chat_id));
        }
    }
}

} // verus!
