//! The recent turns of the conversation with each user.

use std::collections::VecDeque;
use vstd::prelude::*;

verus! {

/// Who said something.
#[derive(Clone, Copy, Debug, PartialEq, Eq, Structural)]
pub enum Role {
    User,
    Assistant,
}

/// One turn of a conversation.
pub struct Turn {
    pub role: Role,
    pub content: String,
}

/// The view of a turn.
pub struct TurnView {
    pub role: Role,
    pub content: Seq<char>,
}

impl View for Turn {
    type V = TurnView;

    open spec fn view(&self) -> TurnView {
        TurnView { role: self.role, content: self.content@ }
    }
}

pub open spec fn turn_views(turns: Seq<Turn>) -> Seq<TurnView> {
    Seq::new(turns.len(), |i: int| turns[i]@)
}

/// The turns of each user, by the user's number.
pub type ChatMemory = dashmap::DashMap<i64, VecDeque<Turn>>;

/// What a memory holds.
pub uninterp spec fn memory_contents(m: dashmap::DashMap<i64, VecDeque<Turn>>) -> Map<i64, Seq<TurnView>>;

/// The memory of nobody.
pub open spec fn no_turns() -> Map<i64, Seq<TurnView>> {
    Map::empty()
}

/// The turns of a user: none, if nothing is remembered.
pub open spec fn history_of(memory: Map<i64, Seq<TurnView>>, user_id: i64) -> Seq<TurnView> {
    if memory.contains_key(user_id) {
        memory[user_id]
    } else {
        Seq::empty()
    }
}

/// How many turns are remembered of each user.
pub const MEMORY_LIMIT: usize = 10;

/// The history after one more turn: the oldest turn makes room when there are too many.
pub open spec fn remembered(history: Seq<TurnView>, turn: TurnView) -> Seq<TurnView> {
    if history.len() + 1 > MEMORY_LIMIT {
        history.push(turn).skip(1)
    } else {
        history.push(turn)
    }
}

/// The history after all these turns, one after another.
pub open spec fn all_remembered(history: Seq<TurnView>, turns: Seq<TurnView>) -> Seq<TurnView>
    decreases turns.len(),
{
    if turns.len() == 0 {
        history
    } else {
        remembered(all_remembered(history, turns.drop_last()), turns.last())
    }
}

/// The memory after one more turn of a user.
pub open spec fn memory_after(
    memory: Map<i64, Seq<TurnView>>,
    user_id: i64,
    turn: TurnView,
) -> Map<i64, Seq<TurnView>> {
    memory.insert(user_id, remembered(history_of(memory, user_id), turn))
}

/// `DashMap::new` makes an empty map.
#[verifier::external_body]
fn memory_map_new() -> (m: dashmap::DashMap<i64, VecDeque<Turn>>)
    ensures
        memory_contents(m) == no_turns(),
{
    dashmap::DashMap::new()
}

/// `DashMap::remove` takes the entry of the user out of the map and hands its queue over.
#[verifier::external_body]
fn memory_map_take(m: &mut dashmap::DashMap<i64, VecDeque<Turn>>, user_id: i64) -> (r: Option<VecDeque<Turn>>)
    ensures
        memory_contents(*final(m)) == memory_contents(*old(m)).remove(user_id),
        r is Some <==> memory_contents(*old(m)).contains_key(user_id),
        r matches Some(turns) ==> turn_views(turns@) == memory_contents(*old(m))[user_id],
{
    m.remove(&user_id).map(|entry| entry.1)
}

/// `DashMap::insert` puts the queue of the user into the map, in place of the one before.
#[verifier::external_body]
fn memory_map_put(m: &mut dashmap::DashMap<i64, VecDeque<Turn>>, user_id: i64, turns: VecDeque<Turn>)
    ensures
        memory_contents(*final(m)) == memory_contents(*old(m)).insert(user_id, turn_views(turns@)),
{
    m.insert(user_id, turns);
}

/// A memory that remembers nothing.
pub fn new_memory() -> (m: ChatMemory)
    ensures
        memory_contents(m) == no_turns(),
{
    memory_map_new()
}

/// Adds a turn to a queue, and drops the oldest one when there are too many.
pub fn push_turn(turns: &mut VecDeque<Turn>, turn: Turn)
    ensures
        turn_views(final(turns)@) == remembered(turn_views(old(turns)@), turn@),
{
    let ghost before = turns@;
    turns.push_back(turn);
    assert(turn_views(turns@) =~= turn_views(before).push(turn@));
    if turns.len() > MEMORY_LIMIT {
        turns.pop_front();
        assert(turn_views(turns@) =~= turn_views(before).push(turn@).skip(1));
    }
}

/// Remembers a turn of a user, and hands out the history with it.
pub fn remember(memory: &mut ChatMemory, user_id: i64, turn: Turn) -> (history: Vec<Turn>)
    ensures
        memory_contents(*final(memory)) == memory_after(memory_contents(*old(memory)), user_id, turn@),
        turn_views(history@) == history_of(memory_contents(*final(memory)), user_id),
{
    let ghost start = memory_contents(*memory);
    let mut turns = match memory_map_take(memory, user_id) {
        Some(turns) => turns,
        None => VecDeque::with_capacity(MEMORY_LIMIT),
    };
    assert(turn_views(turns@) =~= history_of(start, user_id));
    push_turn(&mut turns, turn);
    let mut history: Vec<Turn> = Vec::new();
    let mut i: usize = 0;
    while i < turns.len()
        invariant
            i <= turns.len(),
            turn_views(history@) == turn_views(turns@).take(i as int),
        decreases turns.len() - i,
    {
        let ghost seen = turn_views(history@);
        let copy = Turn { role: turns[i].role, content: turns[i].content.clone() };
        assert(copy@ == turns@[i as int]@);
        history.push(copy);
        assert(turn_views(history@) =~= seen.push(turns@[i as int]@));
        assert(turn_views(turns@).take(i + 1) =~= turn_views(turns@).take(i as int).push(
            turns@[i as int]@,
        ));
        i += 1;
    }
    assert(turn_views(turns@).take(i as int) =~= turn_views(turns@));
    memory_map_put(memory, user_id, turns);
    assert(memory_contents(*memory) =~= memory_after(start, user_id, turn@));
    history
}

/// A history never outgrows the limit.
pub proof fn memory_stays_bounded(history: Seq<TurnView>, turn: TurnView)
    requires
        history.len() <= MEMORY_LIMIT,
    ensures
        remembered(history, turn).len() <= MEMORY_LIMIT,
{
}

/// What is remembered of a conversation are its latest turns: all of them, or as many as the
/// limit allows.
pub proof fn memory_keeps_the_latest_turns(turns: Seq<TurnView>)
    ensures
        all_remembered(Seq::empty(), turns) == turns.skip(
            if turns.len() > MEMORY_LIMIT {
                turns.len() - MEMORY_LIMIT
            } else {
                0
            },
        ),
    decreases turns.len(),
{
    let latest = turns.skip(
        if turns.len() > MEMORY_LIMIT {
            turns.len() - MEMORY_LIMIT
        } else {
            0
        },
    );
    if turns.len() == 0 {
        assert(latest =~= Seq::empty());
    } else {
        memory_keeps_the_latest_turns(turns.drop_last());
        assert(all_remembered(Seq::empty(), turns) =~= latest);
    }
}

/// A turn of one user changes nothing for another.
pub proof fn memories_are_separate(
    memory: Map<i64, Seq<TurnView>>,
    user_id: i64,
    turn: TurnView,
    other: i64,
)
    requires
        other != user_id,
    ensures
        history_of(memory_after(memory, user_id, turn), other) == history_of(memory, other),
{
}

/// A turn of a user is remembered as it is, behind those before it; of more than ten, the oldest
/// is forgotten.
pub proof fn turns_are_remembered(memory: Map<i64, Seq<TurnView>>, user_id: i64, turn: TurnView)
    ensures
        history_of(memory, user_id).len() < 10 ==> history_of(
            memory_after(memory, user_id, turn),
            user_id,
        ) == history_of(memory, user_id).push(turn),
        history_of(memory, user_id).len() >= 10 ==> history_of(
            memory_after(memory, user_id, turn),
            user_id,
        ) == history_of(memory, user_id).push(turn).skip(1),
        !memory.contains_key(user_id) ==> history_of(memory_after(memory, user_id, turn), user_id)
            == seq![turn],
        memory.contains_key(user_id) ==> history_of(memory, user_id) == memory[user_id],
{
    assert(Seq::<TurnView>::empty().push(turn) =~= seq![turn]);
}

/// Turns are viewed one by one, each with its own role and content, and none is left out; of nobody
/// is anything remembered at first.
pub proof fn turns_are_viewed_one_by_one(turns: Seq<Turn>, i: int, user_id: i64)
    ensures
        turn_views(turns).len() == turns.len(),
        0 <= i < turns.len() ==> turn_views(turns)[i].role == turns[i].role && turn_views(
            turns,
        )[i].content == turns[i].content@,
        !no_turns().contains_key(user_id),
{
}

} // verus!
