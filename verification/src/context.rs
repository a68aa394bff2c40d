//! The state that the bot keeps while it runs.

use crate::address::{accepts_address, is_address};
use crate::memory::{memory_contents, new_memory, no_turns, ChatMemory};
use crate::state::{
    all_entries, copy_chats, lists_book, new_shared_state, new_utxo_state, no_outputs, no_wallets,
    utxo_contents, wallet_contents, Book, SharedState, UtxoState,
};
use vstd::prelude::*;

verus! {

/// The state of the bot.
pub struct AppContext {
    /// Who tracks which wallet.
    pub state: SharedState,
    /// The outputs of each wallet that were seen.
    pub utxo_state: UtxoState,
    /// Recent turns of the conversation with each user.
    pub memory: ChatMemory,
    /// Whether the bot watches the wallets.
    pub monitoring: bool,
    /// The user who may use the admin commands.
    pub admin_id: i64,
}

/// The wallets of a book that are addresses.
pub open spec fn watched(book: Book) -> Book {
    Map::new(|w: Seq<char>| book.contains_key(w) && is_address(w), |w: Seq<char>| book[w])
}

impl AppContext {
    /// Who tracks which wallet.
    pub open spec fn book(&self) -> Book {
        wallet_contents(self.state)
    }

    /// The state at the start: nothing is known, and the bot watches.
    pub fn new(admin_id: i64) -> (r: AppContext)
        ensures
            r.book() == no_wallets(),
            utxo_contents(r.utxo_state) == no_outputs(),
            memory_contents(r.memory) == no_turns(),
            r.monitoring,
            r.admin_id == admin_id,
    {
        AppContext {
            state: new_shared_state(),
            utxo_state: new_utxo_state(),
            memory: new_memory(),
            monitoring: true,
            admin_id,
        }
    }

    /// The wallets to look at, each with the chats to tell: none while monitoring is paused, and
    /// none that is not an address.
    pub fn watch_list(&self) -> (list: Vec<(String, Vec<i64>)>)
        ensures
            self.monitoring ==> lists_book(list@, watched(self.book())),
            !self.monitoring ==> list@.len() == 0,
    {
        let mut list: Vec<(String, Vec<i64>)> = Vec::new();
        if !self.monitoring {
            return list;
        }
        let entries = all_entries(&self.state);
        let ghost book = self.book();
        // Where each entry of the list comes from.
        let ghost mut origin: Seq<int> = Seq::empty();
        let mut i: usize = 0;
        while i < entries.len()
            invariant
                i <= entries.len(),
                lists_book(entries@, book),
                origin.len() == list@.len(),
                forall|k: int|
                    0 <= k < origin.len() ==> 0 <= #[trigger] origin[k] < i && is_address(
                        entries@[origin[k]].0@,
                    ) && list@[k].0@ == entries@[origin[k]].0@ && list@[k].1@ == entries@[origin[k]].1@,
                forall|k: int, l: int| 0 <= k < l < origin.len() ==> #[trigger] origin[k] < #[trigger] origin[l],
                forall|j: int| 0 <= j < i && is_address((#[trigger] entries@[j]).0@) ==> origin.contains(j),
            decreases entries.len() - i,
        {
            let ghost before = origin;
            if accepts_address(entries[i].0.as_str()) {
                list.push((entries[i].0.clone(), copy_chats(&entries[i].1)));
                proof {
                    origin = origin.push(i as int);
                    assert(origin[before.len() as int] == i);
                    assert forall|j: int| before.contains(j) implies #[trigger] origin.contains(j) by {
                        assert(origin[before.index_of(j)] == j);
                    }
                }
            }
            i += 1;
        }
        proof {
            let kept = watched(book);
            assert forall|k: int| 0 <= k < list@.len() implies kept.contains_key((#[trigger] list@[k]).0@)
                && list@[k].1@.no_duplicates() && list@[k].1@.to_set() == kept[list@[k].0@] by {
                let e = entries@[origin[k]];
                assert(book.contains_key(e.0@));
            }
            assert forall|k: int, l: int| 0 <= k < l < list@.len() implies (#[trigger] list@[k]).0@ != (
            #[trigger] list@[l]).0@ by {
                assert(entries@[origin[k]].0@ != entries@[origin[l]].0@);
            }
            assert forall|w: Seq<char>| #[trigger] kept.contains_key(w) implies exists|k: int|
                0 <= k < list@.len() && (#[trigger] list@[k]).0@ == w by {
                assert(book.contains_key(w));
                let j = choose|j: int| 0 <= j < entries.len() && (#[trigger] entries@[j]).0@ == w;
                assert(origin.contains(j));
                let k = origin.index_of(j);
                assert(list@[k].0@ == w);
            }
        }
        list
    }
}

/// Every wallet of the book that is an address is watched, for exactly the chats that track it.
pub proof fn all_addresses_are_watched(book: Book, w: Seq<char>)
    ensures
        watched(book).contains_key(w) <==> book.contains_key(w) && is_address(w),
        book.contains_key(w) && is_address(w) ==> watched(book)[w] == book[w],
{
}

} // verus!
