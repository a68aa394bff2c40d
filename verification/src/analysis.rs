//! Finding out which block accepted a transaction, and which blocks a miner was rewarded for.
//!
//! The search walks the block DAG from its tips towards the past, breadth first. It never talks
//! to a node itself: it names the block that it needs next and takes the answer.

use crate::hash::{hash_text_round_trip, hash_text_tells_apart, hex, Hash32};
use crate::text::{decimal, decimal_text, same_text, texts};
use vstd::hash_set::StringHashSet;
use vstd::prelude::*;

verus! {

/// The first position at or after `from` where `pattern` stands in `bytes`.
pub open spec fn first_occurrence(bytes: Seq<u8>, pattern: Seq<u8>, from: int) -> Option<int>
    decreases bytes.len() + 1 - from,
{
    if from < 0 || from + pattern.len() > bytes.len() {
        None
    } else if bytes.subrange(from, from + pattern.len()) == pattern {
        Some(from)
    } else {
        first_occurrence(bytes, pattern, from + 1)
    }
}

fn stands_at(bytes: &Vec<u8>, pattern: &Vec<u8>, at: usize) -> (r: bool)
    requires
        at + pattern.len() <= bytes.len(),
    ensures
        r == (bytes@.subrange(at as int, at + pattern.len()) == pattern@),
{
    let ghost window = bytes@.subrange(at as int, at + pattern.len());
    let mut i: usize = 0;
    while i < pattern.len()
        invariant
            at + pattern.len() <= bytes.len(),
            i <= pattern.len(),
            window == bytes@.subrange(at as int, at + pattern.len()),
            forall|j: int| 0 <= j < i ==> window[j] == pattern@[j],
        decreases pattern.len() - i,
    {
        if bytes[at + i] != pattern[i] {
            assert(window[i as int] != pattern@[i as int]);
            return false;
        }
        i += 1;
    }
    assert(window =~= pattern@);
    true
}

/// Where `pattern` first stands in `bytes`.
pub fn find_bytes(bytes: &Vec<u8>, pattern: &Vec<u8>) -> (r: Option<usize>)
    ensures
        r is Some <==> first_occurrence(bytes@, pattern@, 0) is Some,
        r matches Some(i) ==> first_occurrence(bytes@, pattern@, 0) == Some(i as int) && i + pattern.len()
            <= bytes.len(),
        r is None ==> forall|i: int, j: int|
            0 <= i && j == i + pattern@.len() && j <= bytes@.len() ==> #[trigger] bytes@.subrange(i, j)
                != pattern@,
        r matches Some(at) ==> bytes@.subrange(at as int, at + pattern@.len()) == pattern@,
        r matches Some(at) ==> forall|i: int, j: int|
            0 <= i < at && j == i + pattern@.len() ==> #[trigger] bytes@.subrange(i, j) != pattern@,
{
    if pattern.len() > bytes.len() {
        return None;
    }
    let last: usize = bytes.len() - pattern.len();
    let mut i: usize = 0;
    while i <= last
        invariant
            last + pattern.len() == bytes.len(),
            i <= last + 1,
            first_occurrence(bytes@, pattern@, 0) == first_occurrence(bytes@, pattern@, i as int),
        decreases last + 1 - i,
    {
        proof {
            patterns_are_found_where_they_first_stand(bytes@, pattern@);
        }
        if stands_at(bytes, pattern, i) {
            return Some(i);
        }
        if i == last {
            assert(first_occurrence(bytes@, pattern@, last + 1) is None);
            return None;
        }
        i += 1;
    }
    proof {
        patterns_are_found_where_they_first_stand(bytes@, pattern@);
    }
    None
}

/// The printable ASCII characters among the bytes, in order.
pub open spec fn printable(bytes: Seq<u8>) -> Seq<char>
    decreases bytes.len(),
{
    if bytes.len() == 0 {
        Seq::empty()
    } else if 32 <= bytes.last() <= 126 {
        printable(bytes.drop_last()).push(bytes.last() as char)
    } else {
        printable(bytes.drop_last())
    }
}

/// The text without the spaces at its two ends. No other white space is printable.
pub open spec fn trimmed(text: Seq<char>) -> Seq<char>
    decreases text.len(),
{
    if text.len() > 0 && text.first() == ' ' {
        trimmed(text.drop_first())
    } else if text.len() > 0 && text.last() == ' ' {
        trimmed(text.drop_last())
    } else {
        text
    }
}

/// The name that a miner left behind its script in a coinbase payload.
pub open spec fn worker_name(extra: Seq<u8>) -> Seq<char> {
    if trimmed(printable(extra)).len() == 0 {
        "Standard Miner"@
    } else {
        trimmed(printable(extra))
    }
}

fn printable_chars(bytes: &Vec<u8>, from: usize) -> (r: Vec<char>)
    requires
        from <= bytes.len(),
    ensures
        r@ == printable(bytes@.skip(from as int)),
{
    let ghost extra = bytes@.skip(from as int);
    let mut out: Vec<char> = Vec::new();
    let mut i: usize = from;
    assert(extra.take(0) =~= seq![]);
    while i < bytes.len()
        invariant
            from <= i <= bytes.len(),
            extra == bytes@.skip(from as int),
            out@ == printable(extra.take(i - from)),
        decreases bytes.len() - i,
    {
        let b = bytes[i];
        assert(extra.take(i - from + 1).drop_last() =~= extra.take(i - from));
        assert(extra.take(i - from + 1).last() == b);
        if 32 <= b && b <= 126 {
            out.push(b as char);
        }
        i += 1;
    }
    assert(extra.take(i - from) =~= extra);
    out
}

/// The name of the worker in a payload, from the position behind the miner's script.
#[verifier::spinoff_prover]
pub fn read_worker(payload: &Vec<u8>, from: usize) -> (r: String)
    requires
        from <= payload.len(),
    ensures
        r@ == worker_name(payload@.skip(from as int)),
{
    let chars = printable_chars(payload, from);
    let mut lo: usize = 0;
    let mut hi: usize = chars.len();
    assert(chars@.subrange(0, hi as int) =~= chars@);
    while lo < hi && chars[lo] == ' '
        invariant
            lo <= hi == chars.len(),
            trimmed(chars@) == trimmed(chars@.subrange(lo as int, hi as int)),
        decreases hi - lo,
    {
        assert(chars@.subrange(lo as int, hi as int).drop_first() =~= chars@.subrange(lo + 1, hi as int));
        lo += 1;
    }
    while lo < hi && chars[hi - 1] == ' '
        invariant
            lo <= hi <= chars.len(),
            lo < hi ==> chars@[lo as int] != ' ',
            trimmed(chars@) == trimmed(chars@.subrange(lo as int, hi as int)),
        decreases hi - lo,
    {
        assert(chars@.subrange(lo as int, hi as int).drop_last() =~= chars@.subrange(lo as int, hi - 1));
        hi -= 1;
    }
    let ghost core = chars@.subrange(lo as int, hi as int);
    assert(trimmed(core) == core);
    if lo == hi {
        return "Standard Miner".to_owned();
    }
    let mut out = String::new();
    let mut i: usize = lo;
    while i < hi
        invariant
            lo <= i <= hi <= chars.len(),
            core == chars@.subrange(lo as int, hi as int),
            out@ == core.take(i - lo),
        decreases hi - i,
    {
        out.push(chars[i]);
        assert(core.take(i - lo + 1) =~= core.take(i - lo).push(chars@[i as int]));
        i += 1;
    }
    assert(core.take(i - lo) =~= core);
    out
}

/// One output of a transaction: the address that it pays to, as far as the node tells it, and
/// the script that guards it.
pub struct TxOutput {
    pub address: Option<String>,
    pub script: Vec<u8>,
}

/// The first transaction of a block, which pays the miners.
pub struct FirstTx {
    pub outputs: Vec<TxOutput>,
    pub payload: Vec<u8>,
}

/// What the search reads of a block.
pub struct Block {
    /// The identifiers of the transactions, as far as the node tells them.
    pub tx_ids: Vec<Option<Hash32>>,
    pub first_tx: Option<FirstTx>,
    pub daa_score: u64,
    pub nonce: u64,
    pub parents_by_level: Vec<Vec<Hash32>>,
    pub merge_set_blues: Option<Vec<Hash32>>,
}

/// A node that gives the same answer each time: the block with an identifier, or none.
pub type Node = spec_fn(Seq<u8>) -> Option<Block>;

/// What an analysis finds. Texts are empty and lists are empty where nothing was found.
pub struct BlockAnalysis {
    pub accepting_block: String,
    pub mined_blocks: Vec<String>,
    pub nonce: String,
    pub worker: String,
}

/// The view of an analysis.
#[verifier::ext_equal]
pub struct AnalysisView {
    pub accepting_block: Seq<char>,
    pub mined_blocks: Seq<Seq<char>>,
    pub nonce: Seq<char>,
    pub worker: Seq<char>,
}

impl View for BlockAnalysis {
    type V = AnalysisView;

    open spec fn view(&self) -> AnalysisView {
        AnalysisView {
            accepting_block: self.accepting_block@,
            mined_blocks: texts(self.mined_blocks@),
            nonce: self.nonce@,
            worker: self.worker@,
        }
    }
}

/// An analysis that found the accepting block and no more.
pub open spec fn only_accepted(accepting_block: Seq<char>) -> AnalysisView {
    AnalysisView {
        accepting_block,
        mined_blocks: Seq::empty(),
        nonce: Seq::empty(),
        worker: Seq::empty(),
    }
}

/// Whether a block holds the transaction with this identifier.
pub open spec fn holds_tx(block: Block, tx_id: Seq<char>) -> bool {
    exists|i: int|
        0 <= i < block.tx_ids@.len() && ((#[trigger] block.tx_ids@[i]) matches Some(id) && hex(id@) == tx_id)
}

/// All parents of a block, level by level.
pub open spec fn parents(levels: Seq<Vec<Hash32>>) -> Seq<Hash32>
    decreases levels.len(),
{
    if levels.len() == 0 {
        Seq::empty()
    } else {
        parents(levels.drop_last()) + levels.last()@
    }
}

/// The lowest score of a block whose parents are still looked at.
pub open spec fn score_floor(daa_score: u64) -> int {
    if daa_score >= 60 {
        daa_score - 60
    } else {
        0
    }
}

/// What looking through one queue of blocks comes to: the block with the transaction, or the
/// blocks to look at next. `visited` tells the texts of all blocks that were asked for.
pub struct Scan {
    pub found: Option<Hash32>,
    pub visited: Set<Seq<char>>,
    pub next: Seq<Hash32>,
}

/// Looks through a queue of blocks. A block is asked for once only. The first block with the
/// transaction ends the walk. The parents of a block that is recent enough come next.
pub open spec fn scan(
    node: Node,
    tx_id: Seq<char>,
    floor: int,
    queue: Seq<Hash32>,
    visited: Set<Seq<char>>,
    next: Seq<Hash32>,
) -> Scan
    decreases queue.len(),
{
    if queue.len() == 0 {
        Scan { found: None, visited, next }
    } else if visited.contains(hex(queue[0]@)) {
        scan(node, tx_id, floor, queue.skip(1), visited, next)
    } else {
        let asked = visited.insert(hex(queue[0]@));
        match node(queue[0]@) {
            None => scan(node, tx_id, floor, queue.skip(1), asked, next),
            Some(block) => if holds_tx(block, tx_id) {
                Scan { found: Some(queue[0]), visited: asked, next }
            } else if block.daa_score >= floor {
                scan(node, tx_id, floor, queue.skip(1), asked, next + parents(block.parents_by_level@))
            } else {
                scan(node, tx_id, floor, queue.skip(1), asked, next)
            },
        }
    }
}

/// The block that holds the transaction, if it is found within so many rounds.
pub open spec fn accepting_block(
    node: Node,
    tx_id: Seq<char>,
    floor: int,
    rounds: nat,
    queue: Seq<Hash32>,
    visited: Set<Seq<char>>,
) -> Option<Hash32>
    decreases rounds,
{
    if rounds == 0 || queue.len() == 0 {
        None
    } else {
        let round = scan(node, tx_id, floor, queue, visited, Seq::empty());
        match round.found {
            Some(h) => Some(h),
            None => accepting_block(node, tx_id, floor, (rounds - 1) as nat, round.next, round.visited),
        }
    }
}

/// The script of the first output that pays to the wallet: empty if there is none.
pub open spec fn wallet_script(outputs: Seq<TxOutput>, wallet: Seq<char>) -> Seq<u8>
    decreases outputs.len(),
{
    if outputs.len() == 0 {
        Seq::empty()
    } else if outputs[0].address matches Some(a) && a@ == wallet {
        outputs[0].script@
    } else {
        wallet_script(outputs.skip(1), wallet)
    }
}

/// The script that an accepting block pays to the wallet with.
pub open spec fn paid_script(block: Block, wallet: Seq<char>) -> Seq<u8> {
    match block.first_tx {
        Some(tx) => wallet_script(tx.outputs@, wallet),
        None => Seq::empty(),
    }
}

/// Where the script stands in the payload of a block's first transaction.
pub open spec fn script_position(block: Option<Block>, script: Seq<u8>) -> Option<int> {
    match block {
        Some(b) => match b.first_tx {
            Some(tx) => first_occurrence(tx.payload@, script, 0),
            None => None,
        },
        None => None,
    }
}

/// The findings after one more block of the merge set: a block with the script in its payload
/// was mined by the wallet. Nonce and worker are those of the first such block.
pub open spec fn with_blue(
    found: AnalysisView,
    hash: Seq<u8>,
    block: Option<Block>,
    script: Seq<u8>,
) -> AnalysisView {
    match script_position(block, script) {
        None => found,
        Some(at) => AnalysisView {
            accepting_block: found.accepting_block,
            mined_blocks: found.mined_blocks.push(hex(hash)),
            nonce: if found.nonce.len() == 0 {
                decimal(block->0.nonce as nat)
            } else {
                found.nonce
            },
            worker: if found.nonce.len() == 0 {
                worker_name(block->0.first_tx->0.payload@.skip(at + script.len()))
            } else {
                found.worker
            },
        },
    }
}

/// The findings after all these blocks of the merge set.
pub open spec fn with_blues(
    node: Node,
    script: Seq<u8>,
    blues: Seq<Hash32>,
    found: AnalysisView,
) -> AnalysisView
    decreases blues.len(),
{
    if blues.len() == 0 {
        found
    } else {
        with_blues(node, script, blues.skip(1), with_blue(found, blues[0]@, node(blues[0]@), script))
    }
}

/// What the accepting block of a mining reward tells.
pub open spec fn reward_origin(
    node: Node,
    accepted: Seq<u8>,
    wallet: Seq<char>,
    block: Option<Block>,
) -> AnalysisView {
    match block {
        None => only_accepted(hex(accepted)),
        Some(b) => if paid_script(b, wallet).len() == 0 || b.merge_set_blues is None {
            only_accepted(hex(accepted))
        } else {
            with_blues(
                node,
                paid_script(b, wallet),
                b.merge_set_blues->0@,
                only_accepted(hex(accepted)),
            )
        },
    }
}

/// What is found once the accepting block is known, or known not to be found.
pub open spec fn conclusion(
    node: Node,
    wallet: Seq<char>,
    is_coinbase: bool,
    accepted: Option<Hash32>,
) -> AnalysisView {
    match accepted {
        None => only_accepted(Seq::empty()),
        Some(h) => if is_coinbase {
            reward_origin(node, h@, wallet, node(h@))
        } else {
            only_accepted(hex(h@))
        },
    }
}

/// How many rounds the search takes at most.
pub const MAX_ROUNDS: u32 = 800;

/// How long the search rests after a round, in milliseconds.
pub const PAUSE_MILLIS: u64 = 5;

/// The whole analysis of a transaction, from the tips of the DAG.
pub open spec fn analysis(
    node: Node,
    tips: Seq<Hash32>,
    tx_id: Seq<char>,
    wallet: Seq<char>,
    daa_score: u64,
    is_coinbase: bool,
) -> AnalysisView {
    conclusion(
        node,
        wallet,
        is_coinbase,
        accepting_block(node, tx_id, score_floor(daa_score), MAX_ROUNDS as nat, tips, Set::empty()),
    )
}

/// What a search needs next.
pub enum Request {
    /// The block with this identifier.
    Block(Hash32),
    /// A rest of so many milliseconds.
    Pause(u64),
    /// Nothing more: the search is over.
    Nothing,
}

enum Phase {
    /// Waits for a block of the queue.
    Searching(Hash32),
    /// Rests between two rounds.
    Resting,
    /// Waits for the accepting block, to look at its outputs and its merge set.
    Accepting(Hash32),
    /// Waits for a block of the merge set.
    Blue(Hash32),
    Finished,
}

/// A search under way.
pub struct BlockSearch {
    tx_id: String,
    wallet: String,
    floor: u64,
    is_coinbase: bool,
    phase: Phase,
    rounds_left: u32,
    queue: Vec<Hash32>,
    position: usize,
    next: Vec<Hash32>,
    visited: StringHashSet,
    script: Vec<u8>,
    blues: Vec<Hash32>,
    blue_position: usize,
    found: BlockAnalysis,
}

fn block_holds_tx(block: &Block, tx_id: &str) -> (r: bool)
    ensures
        r == holds_tx(*block, tx_id@),
{
    let mut i: usize = 0;
    while i < block.tx_ids.len()
        invariant
            i <= block.tx_ids.len(),
            forall|j: int|
                0 <= j < i ==> !((#[trigger] block.tx_ids@[j]) matches Some(id) && hex(id@) == tx_id@),
        decreases block.tx_ids.len() - i,
    {
        if let Some(id) = &block.tx_ids[i] {
            let text = id.text();
            if same_text(text.as_str(), tx_id) {
                assert(block.tx_ids@[i as int] matches Some(id) && hex(id@) == tx_id@);
                return true;
            }
        }
        i += 1;
    }
    false
}

fn push_parents(levels: &Vec<Vec<Hash32>>, out: &mut Vec<Hash32>)
    ensures
        final(out)@ == old(out)@ + parents(levels@),
{
    let ghost start = out@;
    let mut i: usize = 0;
    assert(levels@.take(0) =~= seq![]);
    assert(out@ =~= start + parents(levels@.take(0)));
    while i < levels.len()
        invariant
            i <= levels.len(),
            out@ == start + parents(levels@.take(i as int)),
        decreases levels.len() - i,
    {
        let level = &levels[i];
        let ghost before = out@;
        let mut k: usize = 0;
        assert(level@.take(0) =~= seq![]);
        assert(out@ =~= before + level@.take(0));
        while k < level.len()
            invariant
                k <= level.len(),
                out@ == before + level@.take(k as int),
            decreases level.len() - k,
        {
            out.push(level[k]);
            assert(level@.take(k + 1) =~= level@.take(k as int).push(level@[k as int]));
            assert(out@ =~= before + level@.take(k + 1));
            k += 1;
        }
        assert(level@.take(k as int) =~= level@);
        assert(levels@.take(i + 1).drop_last() =~= levels@.take(i as int));
        assert(levels@.take(i + 1).last() == *level);
        assert(out@ =~= start + parents(levels@.take(i + 1)));
        i += 1;
    }
    assert(levels@.take(i as int) =~= levels@);
}

fn copy_bytes(bytes: &Vec<u8>) -> (r: Vec<u8>)
    ensures
        r@ == bytes@,
{
    let mut out: Vec<u8> = Vec::new();
    let mut i: usize = 0;
    while i < bytes.len()
        invariant
            i <= bytes.len(),
            out@ == bytes@.take(i as int),
        decreases bytes.len() - i,
    {
        out.push(bytes[i]);
        assert(bytes@.take(i + 1) =~= bytes@.take(i as int).push(bytes@[i as int]));
        i += 1;
    }
    assert(bytes@.take(i as int) =~= bytes@);
    out
}

fn copy_hashes(hashes: &Vec<Hash32>) -> (r: Vec<Hash32>)
    ensures
        r@ == hashes@,
{
    let mut out: Vec<Hash32> = Vec::new();
    let mut i: usize = 0;
    while i < hashes.len()
        invariant
            i <= hashes.len(),
            out@ == hashes@.take(i as int),
        decreases hashes.len() - i,
    {
        out.push(hashes[i]);
        assert(hashes@.take(i + 1) =~= hashes@.take(i as int).push(hashes@[i as int]));
        i += 1;
    }
    assert(hashes@.take(i as int) =~= hashes@);
    out
}

/// The script that a block pays to the wallet with.
fn find_script(block: &Block, wallet: &str) -> (r: Vec<u8>)
    ensures
        r@ == paid_script(*block, wallet@),
{
    match &block.first_tx {
        None => Vec::new(),
        Some(tx) => {
            let mut i: usize = 0;
            assert(tx.outputs@.skip(0) =~= tx.outputs@);
            while i < tx.outputs.len()
                invariant
                    block.first_tx == Some(*tx),
                    i <= tx.outputs.len(),
                    wallet_script(tx.outputs@, wallet@) == wallet_script(tx.outputs@.skip(i as int), wallet@),
                decreases tx.outputs.len() - i,
            {
                assert(tx.outputs@.skip(i as int).skip(1) =~= tx.outputs@.skip(i + 1));
                assert(tx.outputs@.skip(i as int)[0] == tx.outputs@[i as int]);
                if let Some(address) = &tx.outputs[i].address {
                    if same_text(address.as_str(), wallet) {
                        return copy_bytes(&tx.outputs[i].script);
                    }
                }
                i += 1;
            }
            Vec::new()
        },
    }
}

impl BlockSearch {
    /// What the rest of a round comes to, and all that follows it.
    spec fn remainder(&self, node: Node, queue: Seq<Hash32>, visited: Set<Seq<char>>, next: Seq<Hash32>) -> AnalysisView {
        let round = scan(node, self.tx_id@, self.floor as int, queue, visited, next);
        conclusion(
            node,
            self.wallet@,
            self.is_coinbase,
            match round.found {
                Some(h) => Some(h),
                None => accepting_block(
                    node,
                    self.tx_id@,
                    self.floor as int,
                    self.rounds_left as nat,
                    round.next,
                    round.visited,
                ),
            },
        )
    }

    /// What the search will have found when it is over, if the node answers every question that
    /// is still open.
    pub closed spec fn outcome(&self, node: Node) -> AnalysisView {
        match self.phase {
            Phase::Searching(h) => {
                let rest = self.queue@.skip(self.position + 1);
                match node(h@) {
                    None => self.remainder(node, rest, self.visited@, self.next@),
                    Some(block) => if holds_tx(block, self.tx_id@) {
                        conclusion(node, self.wallet@, self.is_coinbase, Some(h))
                    } else if block.daa_score >= self.floor {
                        self.remainder(
                            node,
                            rest,
                            self.visited@,
                            self.next@ + parents(block.parents_by_level@),
                        )
                    } else {
                        self.remainder(node, rest, self.visited@, self.next@)
                    },
                }
            },
            Phase::Resting => self.remainder(node, Seq::empty(), self.visited@, self.next@),
            Phase::Accepting(h) => reward_origin(node, h@, self.wallet@, node(h@)),
            Phase::Blue(h) => with_blues(
                node,
                self.script@,
                self.blues@.skip(self.blue_position as int),
                self.found@,
            ),
            Phase::Finished => self.found@,
        }
    }

    /// What the search needs next.
    pub closed spec fn wanted(&self) -> Request {
        match self.phase {
            Phase::Searching(h) => Request::Block(h),
            Phase::Resting => Request::Pause(PAUSE_MILLIS),
            Phase::Accepting(h) => Request::Block(h),
            Phase::Blue(h) => Request::Block(h),
            Phase::Finished => Request::Nothing,
        }
    }

    /// The search is in order.
    pub closed spec fn wf(&self) -> bool {
        match self.phase {
            Phase::Searching(h) => {
                &&& self.position < self.queue@.len()
                &&& self.queue@[self.position as int] == h
                &&& self.found@ == only_accepted(Seq::empty())
            },
            Phase::Resting => self.found@ == only_accepted(Seq::empty()),
            Phase::Accepting(h) => {
                &&& self.is_coinbase
                &&& self.found@ == only_accepted(hex(h@))
            },
            Phase::Blue(h) => {
                &&& self.is_coinbase
                &&& self.blue_position < self.blues@.len()
                &&& self.blues@[self.blue_position as int] == h
            },
            Phase::Finished => true,
        }
    }

    /// Which part of the search is under way, counted down to zero.
    pub closed spec fn stage(&self) -> nat {
        match self.phase {
            Phase::Searching(_) => 3,
            Phase::Resting => 3,
            Phase::Accepting(_) => 2,
            Phase::Blue(_) => 1,
            Phase::Finished => 0,
        }
    }

    /// How many rounds are left after this one.
    pub closed spec fn rounds(&self) -> nat {
        self.rounds_left as nat
    }

    /// How much is left to do in this part of the search.
    pub closed spec fn pending(&self) -> nat {
        match self.phase {
            Phase::Searching(_) => (self.queue@.len() - self.position) as nat,
            Phase::Blue(_) => (self.blues@.len() - self.blue_position) as nat,
            _ => 0,
        }
    }

    /// Whether the search walks through the DAG and waits for a block of it.
    pub closed spec fn walking(&self) -> bool {
        self.phase is Searching
    }

    /// The texts of all blocks that the walk has asked for.
    pub closed spec fn asked(&self) -> Set<Seq<char>> {
        self.visited@
    }

    /// The walk asks for a block that it never asked for before, or it asks for none.
    pub open spec fn asks_anew(&self, before: &BlockSearch) -> bool {
        &&& before.asked().subset_of(self.asked())
        &&& self.walking() ==> {
            &&& self.wanted() is Block
            &&& !before.asked().contains(hex(self.wanted()->Block_0@))
            &&& self.asked().contains(hex(self.wanted()->Block_0@))
        }
    }

    /// The text of the transaction that the search is about.
    pub closed spec fn sought(&self) -> Seq<char> {
        self.tx_id@
    }

    /// Whether the search is about a mining reward.
    pub closed spec fn for_reward(&self) -> bool {
        self.is_coinbase
    }

    /// Whether the search waits for the block that it found, to look at its outputs.
    pub closed spec fn revisiting(&self) -> bool {
        self.phase is Accepting
    }

    /// The blocks of the merge set that are still asked for, the first of them now.
    pub closed spec fn merged_left(&self) -> Seq<Hash32> {
        match self.phase {
            Phase::Blue(_) => self.blues@.skip(self.blue_position as int),
            _ => Seq::empty(),
        }
    }

    /// Whether the search rests, or is over.
    pub open spec fn asks_nothing(&self) -> bool {
        self.wanted() is Pause || self.wanted() is Nothing
    }

    /// What the search asks for is a block of the walk, the found block of a mining reward, or the
    /// next block of its merge set.
    pub open spec fn asks_in_order(&self) -> bool {
        ||| self.asks_nothing()
        ||| self.walking()
        ||| self.revisiting() && self.for_reward()
        ||| self.for_reward() && self.merged_left().len() > 0 && self.wanted() == Request::Block(
            self.merged_left()[0],
        )
    }

    /// What a reply leads to. While the search walks, it goes on walking or rests, it ends, or it
    /// revisits the block of the reply, if that holds the transaction and a mining reward is
    /// looked into. The found block leads to its merge set, and a block of the merge set to those
    /// behind it; nothing leads back to the walk.
    pub open spec fn follows(&self, before: &BlockSearch, reply: Option<Block>) -> bool {
        &&& self.sought() == before.sought()
        &&& self.for_reward() == before.for_reward()
        &&& before.walking() ==> {
            ||| self.walking()
            ||| self.asks_nothing()
            ||| {
                &&& self.revisiting()
                &&& self.wanted()->Block_0@ == before.wanted()->Block_0@
                &&& reply matches Some(block)
                &&& holds_tx(block, before.sought())
            }
        }
        &&& before.revisiting() ==> {
            ||| self.wanted() is Nothing
            ||| {
                &&& !self.walking() && !self.revisiting()
                &&& reply matches Some(block)
                &&& block.merge_set_blues matches Some(blues)
                &&& self.merged_left() == blues@
            }
        }
        &&& !before.walking() && !before.revisiting() ==> {
            &&& !self.walking() && !self.revisiting()
            &&& !(self.wanted() is Pause)
            &&& self.merged_left() == before.merged_left().skip(1)
        }
    }

    /// The search has come closer to its end.
    pub open spec fn advanced_from(&self, before: &BlockSearch) -> bool {
        ||| self.stage() < before.stage()
        ||| self.stage() == before.stage() && self.rounds() < before.rounds()
        ||| self.stage() == before.stage() && self.rounds() == before.rounds() && self.pending() < before.pending()
    }

    /// Begins a search from the tips of the DAG.
    pub fn start(tips: Vec<Hash32>, tx_id: &str, wallet: &str, daa_score: u64, is_coinbase: bool) -> (r: BlockSearch)
        ensures
            r.wf(),
            r.sought() == tx_id@,
            r.for_reward() == is_coinbase,
            r.asks_in_order(),
            r.walking() || r.asks_nothing(),
            r.wanted() is Nothing || r.rounds() == MAX_ROUNDS - 1,
            r.walking() ==> r.wanted() is Block && r.asked().contains(hex(r.wanted()->Block_0@)),
            forall|node: Node| #[trigger]
                r.outcome(node) == analysis(node, tips@, tx_id@, wallet@, daa_score, is_coinbase),
    {
        let mut r = BlockSearch {
            tx_id: tx_id.to_owned(),
            wallet: wallet.to_owned(),
            floor: if daa_score >= 60 {
                daa_score - 60
            } else {
                0
            },
            is_coinbase,
            phase: Phase::Resting,
            rounds_left: MAX_ROUNDS,
            queue: Vec::new(),
            position: 0,
            next: tips,
            visited: StringHashSet::new(),
            script: Vec::new(),
            blues: Vec::new(),
            blue_position: 0,
            found: BlockAnalysis {
                accepting_block: String::new(),
                mined_blocks: Vec::new(),
                nonce: String::new(),
                worker: String::new(),
            },
        };
        assert(r.found@ =~= only_accepted(Seq::empty()));
        r.begin_round();
        r
    }

    /// What the search needs next.
    pub fn request(&self) -> (r: Request)
        ensures
            r == self.wanted(),
            r matches Request::Pause(ms) ==> ms == 5,
    {
        match &self.phase {
            Phase::Searching(h) => Request::Block(*h),
            Phase::Resting => Request::Pause(PAUSE_MILLIS),
            Phase::Accepting(h) => Request::Block(*h),
            Phase::Blue(h) => Request::Block(*h),
            Phase::Finished => Request::Nothing,
        }
    }

    /// Goes on to the next block of the queue that was not asked for, or to the end of the round.
    fn advance(&mut self)
        requires
            old(self).position <= old(self).queue@.len(),
            old(self).found@ == only_accepted(Seq::empty()),
        ensures
            final(self).wf(),
            final(self).stage() == 3,
            final(self).rounds_left == old(self).rounds_left,
            final(self).pending() <= old(self).queue@.len() - old(self).position,
            final(self).asks_anew(old(self)),
            final(self).tx_id == old(self).tx_id,
            final(self).is_coinbase == old(self).is_coinbase,
            forall|node: Node| #[trigger]
                final(self).outcome(node) == old(self).remainder(
                    node,
                    old(self).queue@.skip(old(self).position as int),
                    old(self).visited@,
                    old(self).next@,
                ),
    {
        let ghost start = *self;
        while self.position < self.queue.len()
            invariant
                start == *old(self),
                start.position <= self.position <= self.queue@.len(),
                self.queue@ == start.queue@,
                self.next@ == start.next@,
                self.visited@ == start.visited@,
                self.found@ == start.found@,
                self.tx_id == start.tx_id,
                self.wallet@ == start.wallet@,
                self.floor == start.floor,
                self.is_coinbase == start.is_coinbase,
                self.rounds_left == start.rounds_left,
                start.found@ == only_accepted(Seq::empty()),
                forall|node: Node| #[trigger]
                    start.remainder(
                        node,
                        start.queue@.skip(start.position as int),
                        start.visited@,
                        start.next@,
                    ) == start.remainder(
                        node,
                        self.queue@.skip(self.position as int),
                        start.visited@,
                        start.next@,
                    ),
            decreases self.queue@.len() - self.position,
        {
            let h = self.queue[self.position];
            let ghost queue = self.queue@.skip(self.position as int);
            assert(queue[0] == h);
            assert(queue.skip(1) =~= self.queue@.skip(self.position + 1));
            if self.visited.insert(h.text()) {
                self.phase = Phase::Searching(h);
                assert forall|node: Node| #[trigger]
                    self.outcome(node) == start.remainder(
                        node,
                        start.queue@.skip(start.position as int),
                        start.visited@,
                        start.next@,
                    ) by {
                    assert(start.remainder(
                        node,
                        start.queue@.skip(start.position as int),
                        start.visited@,
                        start.next@,
                    ) == start.remainder(node, queue, start.visited@, start.next@));
                }
                return;
            }
            assert(self.visited@ =~= start.visited@);
            self.position = self.position + 1;
        }
        self.phase = Phase::Resting;
        assert(self.queue@.skip(self.position as int) =~= Seq::empty());
    }

    /// Begins the next round, or ends the search.
    fn begin_round(&mut self)
        requires
            old(self).phase is Resting,
            old(self).wf(),
        ensures
            final(self).wf(),
            final(self).tx_id == old(self).tx_id,
            final(self).is_coinbase == old(self).is_coinbase,
            final(self).stage() == 3 || final(self).stage() == 0,
            final(self).stage() == 3 ==> final(self).rounds_left == old(self).rounds_left - 1,
            final(self).advanced_from(old(self)),
            final(self).asks_anew(old(self)),
            forall|node: Node| #[trigger] final(self).outcome(node) == old(self).outcome(node),
    {
        let ghost start = *self;
        if self.rounds_left == 0 || self.next.len() == 0 {
            self.phase = Phase::Finished;
            return;
        }
        self.rounds_left = self.rounds_left - 1;
        let mut fresh: Vec<Hash32> = Vec::new();
        std::mem::swap(&mut self.next, &mut fresh);
        self.queue = fresh;
        self.position = 0;
        assert(self.queue@.skip(0) =~= self.queue@);
        assert(self.next@ =~= Seq::empty());
        self.advance();
    }

    /// Goes on after a rest.
    pub fn resume(&mut self)
        requires
            old(self).wf(),
            old(self).wanted() is Pause,
        ensures
            final(self).wf(),
            final(self).sought() == old(self).sought(),
            final(self).for_reward() == old(self).for_reward(),
            final(self).asks_in_order(),
            final(self).walking() || final(self).asks_nothing(),
            final(self).wanted() is Nothing || final(self).rounds() == old(self).rounds() - 1,
            final(self).advanced_from(old(self)),
            final(self).asks_anew(old(self)),
            forall|node: Node| #[trigger] final(self).outcome(node) == old(self).outcome(node),
    {
        self.begin_round();
    }

    /// Ends the walk: this block holds the transaction.
    fn accept(&mut self, h: Hash32)
        requires
            old(self).phase is Searching,
            old(self).wf(),
        ensures
            final(self).wf(),
            final(self).stage() < old(self).stage(),
            final(self).visited == old(self).visited,
            final(self).rounds_left == old(self).rounds_left,
            final(self).tx_id == old(self).tx_id,
            final(self).is_coinbase == old(self).is_coinbase,
            final(self).phase is Finished || (final(self).phase matches Phase::Accepting(again)
                && again@ == h@),
            forall|node: Node| #[trigger]
                final(self).outcome(node) == conclusion(
                    node,
                    old(self).wallet@,
                    old(self).is_coinbase,
                    Some(h),
                ),
    {
        self.found.accepting_block = h.text();
        assert(self.found@ =~= only_accepted(hex(h@)));
        if self.is_coinbase {
            proof {
                hash_text_round_trip(h@);
            }
            if let Some(again) = Hash32::parse(self.found.accepting_block.as_str()) {
                self.phase = Phase::Accepting(again);
                return;
            }
        }
        self.phase = Phase::Finished;
    }

    /// Goes on to the next block of the merge set, or ends the search.
    fn next_blue(&mut self)
        requires
            old(self).blue_position <= old(self).blues@.len(),
            old(self).is_coinbase,
        ensures
            final(self).wf(),
            final(self).tx_id == old(self).tx_id,
            final(self).is_coinbase,
            final(self).merged_left() == old(self).blues@.skip(old(self).blue_position as int),
            final(self).stage() <= 1,
            final(self).rounds_left == old(self).rounds_left,
            final(self).visited == old(self).visited,
            final(self).stage() == 1 ==> final(self).pending() == old(self).blues@.len() - old(self).blue_position,
            forall|node: Node| #[trigger]
                final(self).outcome(node) == with_blues(
                    node,
                    old(self).script@,
                    old(self).blues@.skip(old(self).blue_position as int),
                    old(self).found@,
                ),
    {
        if self.blue_position < self.blues.len() {
            self.phase = Phase::Blue(self.blues[self.blue_position]);
        } else {
            self.phase = Phase::Finished;
            assert(self.blues@.skip(self.blue_position as int) =~= Seq::empty());
        }
    }

    /// Looks at the accepting block: what it pays to the wallet, and what it merged.
    fn take_accepting(&mut self, h: Hash32, reply: &Option<Block>)
        requires
            old(self).phase == Phase::Accepting(h),
            old(self).wf(),
        ensures
            final(self).wf(),
            final(self).stage() < old(self).stage(),
            final(self).visited == old(self).visited,
            final(self).rounds_left == old(self).rounds_left,
            final(self).follows(old(self), *reply),
            forall|node: Node| #[trigger]
                final(self).outcome(node) == reward_origin(node, h@, old(self).wallet@, *reply),
    {
        self.phase = Phase::Finished;
        if let Some(block) = reply {
            let script = find_script(block, self.wallet.as_str());
            if script.len() > 0 {
                if let Some(blues) = &block.merge_set_blues {
                    self.script = script;
                    self.blues = copy_hashes(blues);
                    self.blue_position = 0;
                    assert(self.blues@.skip(0) =~= self.blues@);
                    self.next_blue();
                }
            }
        }
    }

    /// Looks at one block of the merge set: whether the wallet mined it.
    fn take_blue(&mut self, h: Hash32, reply: &Option<Block>)
        requires
            old(self).phase == Phase::Blue(h),
            old(self).wf(),
        ensures
            final(self).wf(),
            final(self).rounds_left == old(self).rounds_left,
            final(self).follows(old(self), *reply),
            final(self).advanced_from(old(self)),
            final(self).visited == old(self).visited,
            forall|node: Node|
                node(h@) == *reply ==> #[trigger] final(self).outcome(node) == old(self).outcome(node),
    {
        let ghost start = *self;
        let ghost blues = self.blues@.skip(self.blue_position as int);
        proof {
            assert(blues[0] == h);
            assert(blues.skip(1) =~= self.blues@.skip(self.blue_position + 1));
        }
        if let Some(block) = reply {
            if let Some(tx) = &block.first_tx {
                if let Some(at) = find_bytes(&tx.payload, &self.script) {
                    if self.found.nonce.as_str().is_empty() {
                        self.found.nonce = decimal_text(block.nonce as u128);
                        self.found.worker = read_worker(&tx.payload, at + self.script.len());
                    }
                    self.found.mined_blocks.push(h.text());
                    assert(texts(self.found.mined_blocks@) =~= texts(start.found.mined_blocks@).push(
                        hex(h@),
                    ));
                }
            }
        }
        assert(self.found@ =~= with_blue(start.found@, h@, *reply, start.script@));
        assert(self.blue_position < self.blues.len());
        self.blue_position = self.blue_position + 1;
        self.next_blue();
    }

    /// Takes the answer to the question for a block.
    pub fn give_block(&mut self, reply: &Option<Block>)
        requires
            old(self).wf(),
            old(self).wanted() is Block,
        ensures
            final(self).wf(),
            final(self).asks_in_order(),
            final(self).follows(old(self), *reply),
            final(self).rounds() == old(self).rounds(),
            final(self).advanced_from(old(self)),
            final(self).asks_anew(old(self)),
            forall|node: Node|
                node(old(self).wanted()->Block_0@) == *reply ==> #[trigger] final(self).outcome(node)
                    == old(self).outcome(node),
    {
        match &self.phase {
            Phase::Searching(h) => {
                let h = *h;
                if let Some(block) = reply {
                    if block_holds_tx(block, self.tx_id.as_str()) {
                        self.accept(h);
                        return;
                    }
                    if block.daa_score >= self.floor {
                        push_parents(&block.parents_by_level, &mut self.next);
                    }
                }
                assert(self.position < self.queue.len());
                self.position = self.position + 1;
                self.advance();
            },
            Phase::Accepting(h) => {
                let h = *h;
                self.take_accepting(h, reply);
            },
            Phase::Blue(h) => {
                let h = *h;
                self.take_blue(h, reply);
            },
            _ => {},
        }
    }

    /// What the search has found, once it is over.
    pub fn finish(self) -> (r: BlockAnalysis)
        requires
            self.wf(),
            self.wanted() is Nothing,
        ensures
            forall|node: Node| #[trigger] self.outcome(node) == r@,
    {
        self.found
    }
}

/// What a list of known answers says about a block: the first answer that is about it.
pub open spec fn known_answer(answers: Seq<(Hash32, Option<Block>)>, hash: Seq<u8>) -> Option<Block>
    decreases answers.len(),
{
    if answers.len() == 0 {
        None
    } else if answers[0].0@ == hash {
        answers[0].1
    } else {
        known_answer(answers.skip(1), hash)
    }
}

/// The node that answers from a list.
pub open spec fn answering(answers: Seq<(Hash32, Option<Block>)>) -> Node {
    |hash: Seq<u8>| known_answer(answers, hash)
}

fn give_known(search: &mut BlockSearch, answers: &Vec<(Hash32, Option<Block>)>, hash: Hash32)
    requires
        old(search).wf(),
        old(search).wanted() == Request::Block(hash),
    ensures
        final(search).wf(),
        final(search).advanced_from(old(search)),
        final(search).outcome(answering(answers@)) == old(search).outcome(answering(answers@)),
{
    let wanted = hash.text();
    let ghost node = answering(answers@);
    let mut i: usize = 0;
    assert(answers@.skip(0) =~= answers@);
    while i < answers.len()
        invariant
            i <= answers.len(),
            wanted@ == hex(hash@),
            node == answering(answers@),
            search.wf(),
            search.wanted() == Request::Block(hash),
            *search == *old(search),
            known_answer(answers@, hash@) == known_answer(answers@.skip(i as int), hash@),
        decreases answers.len() - i,
    {
        assert(answers@.skip(i as int).skip(1) =~= answers@.skip(i + 1));
        assert(answers@.skip(i as int)[0] == answers@[i as int]);
        let text = answers[i].0.text();
        if same_text(text.as_str(), wanted.as_str()) {
            proof {
                hash_text_tells_apart(answers@[i as int].0@, hash@);
                assert(node(hash@) == answers@[i as int].1);
            }
            search.give_block(&answers[i].1);
            return;
        }
        i += 1;
    }
    let none: Option<Block> = None;
    assert(node(hash@) == none);
    search.give_block(&none);
}

/// The whole analysis, on answers that are at hand already.
pub fn analyze_block_payload(
    tips: Vec<Hash32>,
    answers: &Vec<(Hash32, Option<Block>)>,
    tx_id: &str,
    wallet: &str,
    daa_score: u64,
    is_coinbase: bool,
) -> (r: BlockAnalysis)
    ensures
        r@ == analysis(answering(answers@), tips@, tx_id@, wallet@, daa_score, is_coinbase),
{
    let ghost node = answering(answers@);
    let ghost expected = analysis(node, tips@, tx_id@, wallet@, daa_score, is_coinbase);
    let mut search = BlockSearch::start(tips, tx_id, wallet, daa_score, is_coinbase);
    loop
        invariant
            search.wf(),
            node == answering(answers@),
            search.outcome(node) == expected,
        ensures
            search.wf(),
            search.outcome(node) == expected,
            search.wanted() is Nothing,
        decreases search.stage(), search.rounds(), search.pending(),
    {
        match search.request() {
            Request::Block(hash) => give_known(&mut search, answers, hash),
            Request::Pause(_) => search.resume(),
            Request::Nothing => break,
        }
    }
    let r = search.finish();
    assert(search.outcome(node) == r@);
    r
}

/// A walk through a queue finds only a block that holds the transaction.
proof fn scan_finds_a_holder(
    node: Node,
    tx_id: Seq<char>,
    floor: int,
    queue: Seq<Hash32>,
    visited: Set<Seq<char>>,
    next: Seq<Hash32>,
)
    ensures
        scan(node, tx_id, floor, queue, visited, next).found matches Some(h) ==> (node(h@) matches Some(
            block,
        ) && holds_tx(block, tx_id)),
    decreases queue.len(),
{
    if queue.len() > 0 {
        let rest = queue.skip(1);
        let asked = visited.insert(hex(queue[0]@));
        scan_finds_a_holder(node, tx_id, floor, rest, visited, next);
        scan_finds_a_holder(node, tx_id, floor, rest, asked, next);
        if let Some(block) = node(queue[0]@) {
            scan_finds_a_holder(
                node,
                tx_id,
                floor,
                rest,
                asked,
                next + parents(block.parents_by_level@),
            );
        }
    }
}

/// Whether a place of a queue holds the transaction in a block that was not asked for.
pub open spec fn holder_at(
    node: Node,
    tx_id: Seq<char>,
    queue: Seq<Hash32>,
    visited: Set<Seq<char>>,
    i: int,
) -> bool {
    &&& !visited.contains(hex(queue[i]@))
    &&& node(queue[i]@) matches Some(block)
    &&& holds_tx(block, tx_id)
}

/// One round finds the transaction exactly if a block of its queue holds it.
pub proof fn rounds_miss_nothing(
    node: Node,
    tx_id: Seq<char>,
    floor: int,
    queue: Seq<Hash32>,
    visited: Set<Seq<char>>,
    next: Seq<Hash32>,
)
    ensures
        scan(node, tx_id, floor, queue, visited, next).found is Some <==> exists|i: int|
            0 <= i < queue.len() && #[trigger] holder_at(node, tx_id, queue, visited, i),
    decreases queue.len(),
{
    if queue.len() > 0 {
        let rest = queue.skip(1);
        let head = queue[0];
        let asked = visited.insert(hex(head@));
        let head_holds = holder_at(node, tx_id, queue, visited, 0);
        if visited.contains(hex(head@)) {
            rounds_miss_nothing(node, tx_id, floor, rest, visited, next);
            holders_of_the_rest(node, tx_id, queue, visited, visited);
        } else if !head_holds {
            let further = match node(head@) {
                Some(block) => if block.daa_score >= floor {
                    next + parents(block.parents_by_level@)
                } else {
                    next
                },
                None => next,
            };
            rounds_miss_nothing(node, tx_id, floor, rest, asked, further);
            holders_of_the_rest(node, tx_id, queue, visited, asked);
        }
    }
}

/// Where the head of a queue does not hold the transaction, the rest of the queue decides, whether
/// the head is counted as asked for or not.
proof fn holders_of_the_rest(
    node: Node,
    tx_id: Seq<char>,
    queue: Seq<Hash32>,
    visited: Set<Seq<char>>,
    asked: Set<Seq<char>>,
)
    requires
        queue.len() > 0,
        !holder_at(node, tx_id, queue, visited, 0),
        asked == visited || asked == visited.insert(hex(queue[0]@)),
    ensures
        (exists|i: int| 0 <= i < queue.len() && #[trigger] holder_at(node, tx_id, queue, visited, i))
            <==> (exists|i: int|
            0 <= i < queue.len() - 1 && #[trigger] holder_at(
                node,
                tx_id,
                queue.skip(1),
                asked,
                i,
            )),
{
    let rest = queue.skip(1);
    if exists|i: int| 0 <= i < queue.len() && #[trigger] holder_at(node, tx_id, queue, visited, i) {
        let i = choose|i: int|
            0 <= i < queue.len() && #[trigger] holder_at(node, tx_id, queue, visited, i);
        assert(i > 0);
        assert(rest[i - 1] == queue[i]);
        if hex(queue[i]@) == hex(queue[0]@) {
            hash_text_tells_apart(queue[i]@, queue[0]@);
            assert(holder_at(node, tx_id, queue, visited, 0));
        }
        assert(holder_at(node, tx_id, rest, asked, i - 1));
    }
    if exists|i: int| 0 <= i < queue.len() - 1 && #[trigger] holder_at(node, tx_id, rest, asked, i) {
        let i = choose|i: int|
            0 <= i < queue.len() - 1 && #[trigger] holder_at(node, tx_id, rest, asked, i);
        assert(rest[i] == queue[i + 1]);
        assert(holder_at(node, tx_id, queue, visited, i + 1));
    }
}

/// The accepting block that a search finds does hold the transaction.
pub proof fn accepting_block_holds_the_transaction(
    node: Node,
    tx_id: Seq<char>,
    floor: int,
    rounds: nat,
    queue: Seq<Hash32>,
    visited: Set<Seq<char>>,
)
    ensures
        accepting_block(node, tx_id, floor, rounds, queue, visited) matches Some(h) ==> (node(
            h@,
        ) matches Some(block) && holds_tx(block, tx_id)),
    decreases rounds,
{
    if rounds > 0 && queue.len() > 0 {
        scan_finds_a_holder(node, tx_id, floor, queue, visited, Seq::empty());
        let round = scan(node, tx_id, floor, queue, visited, Seq::empty());
        accepting_block_holds_the_transaction(
            node,
            tx_id,
            floor,
            (rounds - 1) as nat,
            round.next,
            round.visited,
        );
    }
}

// ---- What the walk finds, told by paths through the DAG

/// Whether a list of blocks names one with this identifier.
pub open spec fn names(list: Seq<Hash32>, id: Seq<u8>) -> bool {
    exists|i: int| 0 <= i < list.len() && (#[trigger] list[i])@ == id
}

/// Whether the block with an identifier is there and holds the transaction.
pub open spec fn is_holder(node: Node, tx_id: Seq<char>, id: Seq<u8>) -> bool {
    node(id) matches Some(block) && holds_tx(block, tx_id)
}

/// Whether one step leads from a block to another: the first is there and recent enough, and the
/// second is one of its parents.
pub open spec fn leads(node: Node, floor: int, from: Seq<u8>, to: Seq<u8>) -> bool {
    node(from) matches Some(block) && block.daa_score >= floor && names(
        parents(block.parents_by_level@),
        to,
    )
}

/// Whether a path of exactly so many steps leads from one of the tips to a block.
pub open spec fn steps_away(
    node: Node,
    floor: int,
    tips: Seq<Hash32>,
    steps: nat,
    id: Seq<u8>,
) -> bool
    decreases steps,
{
    if steps == 0 {
        names(tips, id)
    } else {
        exists|from: Seq<u8>|
            steps_away(node, floor, tips, (steps - 1) as nat, from) && #[trigger] leads(
                node,
                floor,
                from,
                id,
            )
    }
}

/// The blocks that a round looks through, and the texts of those that were asked for before it.
pub struct Round {
    pub queue: Seq<Hash32>,
    pub visited: Set<Seq<char>>,
}

/// The round with a number, counted from zero.
pub open spec fn round_at(
    node: Node,
    tx_id: Seq<char>,
    floor: int,
    tips: Seq<Hash32>,
    number: nat,
) -> Round
    decreases number,
{
    if number == 0 {
        Round { queue: tips, visited: Set::empty() }
    } else {
        let before = round_at(node, tx_id, floor, tips, (number - 1) as nat);
        let s = scan(node, tx_id, floor, before.queue, before.visited, Seq::empty());
        Round { queue: s.next, visited: s.visited }
    }
}

/// Whether a place of a round's queue is the first one with the transaction.
pub open spec fn first_holder_at(node: Node, tx_id: Seq<char>, round: Round, i: int) -> bool {
    &&& 0 <= i < round.queue.len()
    &&& is_holder(node, tx_id, round.queue[i]@)
    &&& forall|j: int| 0 <= j < i ==> !is_holder(node, tx_id, (#[trigger] round.queue[j])@)
}

/// Whether a block of a queue has this text.
spec fn has_text(queue: Seq<Hash32>, text: Seq<char>) -> bool {
    exists|i: int| 0 <= i < queue.len() && hex((#[trigger] queue[i])@) == text
}

/// Whether one step leads from a block of a queue to a block.
spec fn leads_from(node: Node, floor: int, queue: Seq<Hash32>, to: Seq<u8>) -> bool {
    exists|i: int| 0 <= i < queue.len() && leads(node, floor, (#[trigger] queue[i])@, to)
}

/// What one walk through a queue comes to, told block by block.
proof fn scan_tells(
    node: Node,
    tx_id: Seq<char>,
    floor: int,
    queue: Seq<Hash32>,
    visited: Set<Seq<char>>,
    next: Seq<Hash32>,
)
    ensures
        ({
            let s = scan(node, tx_id, floor, queue, visited, next);
            &&& s.found is None ==> forall|t: Seq<char>| #[trigger]
                s.visited.contains(t) <==> visited.contains(t) || has_text(queue, t)
            &&& forall|id: Seq<u8>| names(next, id) ==> #[trigger] names(s.next, id)
            &&& forall|id: Seq<u8>| #[trigger]
                names(s.next, id) ==> names(next, id) || leads_from(node, floor, queue, id)
            &&& s.found is None ==> forall|i: int, id: Seq<u8>|
                0 <= i < queue.len() && !visited.contains(hex(queue[i]@)) && leads(
                    node,
                    floor,
                    (#[trigger] queue[i])@,
                    id,
                ) ==> #[trigger] names(s.next, id)
        }),
    decreases queue.len(),
{
    if queue.len() > 0 {
        let head = queue[0];
        let rest = queue.skip(1);
        let asked = visited.insert(hex(head@));
        let s = scan(node, tx_id, floor, queue, visited, next);
        let further = match node(head@) {
            Some(block) => if block.daa_score >= floor {
                next + parents(block.parents_by_level@)
            } else {
                next
            },
            None => next,
        };
        assert forall|t: Seq<char>| #[trigger] has_text(queue, t) <==> hex(head@) == t || has_text(
            rest,
            t,
        ) by {
            if has_text(queue, t) {
                let i = choose|i: int| 0 <= i < queue.len() && hex((#[trigger] queue[i])@) == t;
                if i > 0 {
                    assert(rest[i - 1] == queue[i]);
                }
            }
            if has_text(rest, t) {
                let i = choose|i: int| 0 <= i < rest.len() && hex((#[trigger] rest[i])@) == t;
                assert(queue[i + 1] == rest[i]);
            }
            assert(queue[0] == head);
        }
        assert forall|id: Seq<u8>| #[trigger] leads_from(node, floor, rest, id) implies leads_from(
            node,
            floor,
            queue,
            id,
        ) by {
            let i = choose|i: int| 0 <= i < rest.len() && leads(node, floor, (#[trigger] rest[i])@, id);
            assert(queue[i + 1] == rest[i]);
        }
        if visited.contains(hex(head@)) {
            scan_tells(node, tx_id, floor, rest, visited, next);
            assert forall|i: int, id: Seq<u8>|
                s.found is None && 0 <= i < queue.len() && !visited.contains(hex(queue[i]@))
                    && leads(node, floor, (#[trigger] queue[i])@, id) implies #[trigger] names(
                s.next,
                id,
            ) by {
                assert(rest[i - 1] == queue[i]);
            }
        } else if !is_holder(node, tx_id, head@) {
            scan_tells(node, tx_id, floor, rest, asked, further);
            assert forall|id: Seq<u8>| #[trigger] names(further, id) <==> names(next, id) || leads(
                node,
                floor,
                head@,
                id,
            ) by {
                further_names(node, floor, next, head@, id);
            }
            assert forall|id: Seq<u8>| #[trigger] names(s.next, id) implies names(next, id)
                || leads_from(node, floor, queue, id) by {
                if !leads_from(node, floor, rest, id) {
                    assert(names(further, id));
                    assert(leads(node, floor, queue[0]@, id) || names(next, id));
                }
            }
            assert forall|id: Seq<u8>| names(next, id) implies #[trigger] names(s.next, id) by {
                assert(names(further, id));
            }
            assert forall|i: int, id: Seq<u8>|
                s.found is None && 0 <= i < queue.len() && !visited.contains(hex(queue[i]@))
                    && leads(node, floor, (#[trigger] queue[i])@, id) implies #[trigger] names(
                s.next,
                id,
            ) by {
                if hex(queue[i]@) == hex(head@) {
                    hash_text_tells_apart(queue[i]@, head@);
                    assert(names(further, id));
                } else {
                    assert(rest[i - 1] == queue[i]);
                }
            }
        }
    }
}

/// The blocks to look at next, after one more block.
proof fn further_names(node: Node, floor: int, next: Seq<Hash32>, head: Seq<u8>, id: Seq<u8>)
    ensures
        ({
            let further = match node(head) {
                Some(block) => if block.daa_score >= floor {
                    next + parents(block.parents_by_level@)
                } else {
                    next
                },
                None => next,
            };
            names(further, id) <==> names(next, id) || leads(node, floor, head, id)
        }),
{
    if let Some(block) = node(head) {
        if block.daa_score >= floor {
            let more = parents(block.parents_by_level@);
            let both = next + more;
            if names(both, id) {
                let i = choose|i: int| 0 <= i < both.len() && (#[trigger] both[i])@ == id;
                if i < next.len() {
                    assert(next[i]@ == id);
                } else {
                    assert(more[i - next.len()]@ == id);
                }
            }
            if names(next, id) {
                let i = choose|i: int| 0 <= i < next.len() && (#[trigger] next[i])@ == id;
                assert(both[i]@ == id);
            }
            if names(more, id) {
                let i = choose|i: int| 0 <= i < more.len() && (#[trigger] more[i])@ == id;
                assert(both[next.len() + i]@ == id);
            }
        }
    }
}

/// What a round knows, as long as the transaction was not found: its queue holds blocks that are
/// so many steps away, all blocks that are nearer were asked for, those that are as near were
/// asked for or are in the queue, and no block that was asked for holds the transaction. Where
/// a step leads from a block that was asked for, it leads to one that was, or that is in the queue.
spec fn round_knows(
    node: Node,
    tx_id: Seq<char>,
    floor: int,
    tips: Seq<Hash32>,
    number: nat,
    round: Round,
) -> bool {
    &&& forall|i: int|
        0 <= i < round.queue.len() ==> steps_away(
            node,
            floor,
            tips,
            number,
            (#[trigger] round.queue[i])@,
        )
    &&& forall|steps: nat, id: Seq<u8>| #[trigger]
        steps_away(node, floor, tips, steps, id) && steps < number ==> round.visited.contains(hex(id))
    &&& forall|id: Seq<u8>| #[trigger]
        steps_away(node, floor, tips, number, id) ==> round.visited.contains(hex(id)) || names(
            round.queue,
            id,
        )
    &&& forall|id: Seq<u8>|
        id.len() == 32 && #[trigger] round.visited.contains(hex(id)) ==> !is_holder(node, tx_id, id)
    &&& forall|id: Seq<u8>, to: Seq<u8>|
        id.len() == 32 && round.visited.contains(hex(id)) && #[trigger] leads(node, floor, id, to)
            ==> round.visited.contains(hex(to)) || names(round.queue, to)
}

/// The last but one block of a path.
proof fn step_back(node: Node, floor: int, tips: Seq<Hash32>, steps: nat, id: Seq<u8>) -> (from: Seq<
    u8,
>)
    requires
        steps > 0,
        steps_away(node, floor, tips, steps, id),
    ensures
        steps_away(node, floor, tips, (steps - 1) as nat, from),
        leads(node, floor, from, id),
{
    choose|from: Seq<u8>|
        steps_away(node, floor, tips, (steps - 1) as nat, from) && #[trigger] leads(
            node,
            floor,
            from,
            id,
        )
}

/// A path with one more step.
proof fn step_on(
    node: Node,
    floor: int,
    tips: Seq<Hash32>,
    steps: nat,
    from: Seq<u8>,
    id: Seq<u8>,
)
    requires
        steps_away(node, floor, tips, steps, from),
        leads(node, floor, from, id),
    ensures
        steps_away(node, floor, tips, steps + 1, id),
{
    assert(steps_away(node, floor, tips, ((steps + 1) - 1) as nat, from));
}

/// Every block on a path has an identifier of its proper length.
proof fn paths_have_identifiers(node: Node, floor: int, tips: Seq<Hash32>, steps: nat, id: Seq<u8>)
    requires
        steps_away(node, floor, tips, steps, id),
    ensures
        id.len() == 32,
{
    if steps == 0 {
        let i = choose|i: int| 0 <= i < tips.len() && (#[trigger] tips[i])@ == id;
        assert(tips[i]@.len() == 32);
    } else {
        let from = step_back(node, floor, tips, steps, id);
        let list = parents(node(from)->0.parents_by_level@);
        let i = choose|i: int| 0 <= i < list.len() && (#[trigger] list[i])@ == id;
        assert(list[i]@.len() == 32);
    }
}

/// The first round knows what a round knows.
proof fn first_round_knows(node: Node, tx_id: Seq<char>, floor: int, tips: Seq<Hash32>)
    ensures
        round_knows(node, tx_id, floor, tips, 0, round_at(node, tx_id, floor, tips, 0)),
{
    assert forall|i: int| 0 <= i < tips.len() implies steps_away(
        node,
        floor,
        tips,
        0,
        (#[trigger] tips[i])@,
    ) by {
        assert(names(tips, tips[i]@));
    }
}

/// A round that does not find the transaction hands on what it knows.
proof fn next_round_knows(
    node: Node,
    tx_id: Seq<char>,
    floor: int,
    tips: Seq<Hash32>,
    number: nat,
)
    requires
        round_knows(node, tx_id, floor, tips, number, round_at(node, tx_id, floor, tips, number)),
        ({
            let round = round_at(node, tx_id, floor, tips, number);
            scan(node, tx_id, floor, round.queue, round.visited, Seq::empty()).found is None
        }),
    ensures
        round_knows(
            node,
            tx_id,
            floor,
            tips,
            number + 1,
            round_at(node, tx_id, floor, tips, number + 1),
        ),
{
    let round = round_at(node, tx_id, floor, tips, number);
    let queue = round.queue;
    let s = scan(node, tx_id, floor, queue, round.visited, Seq::empty());
    let after = round_at(node, tx_id, floor, tips, number + 1);
    assert(after.queue == s.next && after.visited == s.visited);
    scan_tells(node, tx_id, floor, queue, round.visited, Seq::empty());
    rounds_miss_nothing(node, tx_id, floor, queue, round.visited, Seq::empty());
    assert forall|id: Seq<u8>| names(queue, id) implies #[trigger] after.visited.contains(hex(id)) by {
        let i = choose|i: int| 0 <= i < queue.len() && (#[trigger] queue[i])@ == id;
        assert(hex(queue[i]@) == hex(id));
        assert(has_text(queue, hex(id)));
    }
    assert forall|id: Seq<u8>|
        id.len() == 32 && #[trigger] after.visited.contains(hex(id)) && !round.visited.contains(
            hex(id),
        ) implies exists|i: int| 0 <= i < queue.len() && (#[trigger] queue[i])@ == id by {
        assert(has_text(queue, hex(id)));
        let i = choose|i: int| 0 <= i < queue.len() && hex((#[trigger] queue[i])@) == hex(id);
        hash_text_tells_apart(queue[i]@, id);
    }
    // The queue of the next round is one step further away.
    assert forall|i: int| 0 <= i < after.queue.len() implies steps_away(
        node,
        floor,
        tips,
        number + 1,
        (#[trigger] after.queue[i])@,
    ) by {
        let id = after.queue[i]@;
        assert(names(s.next, id));
        assert(leads_from(node, floor, queue, id));
        let k = choose|k: int| 0 <= k < queue.len() && leads(node, floor, (#[trigger] queue[k])@, id);
        step_on(node, floor, tips, number, queue[k]@, id);
    }
    // No block that was asked for holds the transaction.
    assert forall|id: Seq<u8>| id.len() == 32 && #[trigger] after.visited.contains(hex(id)) implies !is_holder(
        node,
        tx_id,
        id,
    ) by {
        if !round.visited.contains(hex(id)) {
            let i = choose|i: int| 0 <= i < queue.len() && (#[trigger] queue[i])@ == id;
            assert(!holder_at(node, tx_id, queue, round.visited, i));
        }
    }
    // Steps from blocks that were asked for stay within reach.
    assert forall|id: Seq<u8>, to: Seq<u8>|
        id.len() == 32 && after.visited.contains(hex(id)) && #[trigger] leads(node, floor, id, to) implies after.visited.contains(
    hex(to)) || names(after.queue, to) by {
        if round.visited.contains(hex(id)) {
            assert(round.visited.contains(hex(to)) || names(queue, to));
        } else {
            let i = choose|i: int| 0 <= i < queue.len() && (#[trigger] queue[i])@ == id;
            assert(leads(node, floor, queue[i]@, to));
            assert(names(s.next, to));
        }
    }
    // What is at most as far away as the queue was asked for by now.
    assert forall|steps: nat, id: Seq<u8>| #[trigger]
        steps_away(node, floor, tips, steps, id) && steps < number + 1 implies after.visited.contains(
        hex(id),
    ) by {
        if steps == number {
            assert(round.visited.contains(hex(id)) || names(queue, id));
        } else {
            assert(round.visited.contains(hex(id)));
        }
    }
    assert forall|id: Seq<u8>| #[trigger]
        steps_away(node, floor, tips, number + 1, id) implies after.visited.contains(hex(id)) || names(
        after.queue,
        id,
    ) by {
        let from = step_back(node, floor, tips, number + 1, id);
        paths_have_identifiers(node, floor, tips, number, from);
        assert(after.visited.contains(hex(from)));
    }
}

/// Where the queue is empty, every block that any path leads to was asked for.
proof fn empty_queue_reaches_all(
    node: Node,
    tx_id: Seq<char>,
    floor: int,
    tips: Seq<Hash32>,
    number: nat,
    round: Round,
    steps: nat,
    id: Seq<u8>,
)
    requires
        round_knows(node, tx_id, floor, tips, number, round),
        round.queue.len() == 0,
        steps_away(node, floor, tips, steps, id),
    ensures
        round.visited.contains(hex(id)),
        !is_holder(node, tx_id, id),
    decreases steps,
{
    paths_have_identifiers(node, floor, tips, steps, id);
    if steps > number {
        let from = step_back(node, floor, tips, steps, id);
        empty_queue_reaches_all(
            node,
            tx_id,
            floor,
            tips,
            number,
            round,
            (steps - 1) as nat,
            from,
        );
        paths_have_identifiers(node, floor, tips, (steps - 1) as nat, from);
        assert(round.visited.contains(hex(id)) || names(round.queue, id));
    }
}

/// What a walk finds is the first block of its queue that holds the transaction and was not asked
/// for.
proof fn scan_finds_the_first(
    node: Node,
    tx_id: Seq<char>,
    floor: int,
    queue: Seq<Hash32>,
    visited: Set<Seq<char>>,
    next: Seq<Hash32>,
) -> (at: int)
    requires
        scan(node, tx_id, floor, queue, visited, next).found is Some,
    ensures
        0 <= at < queue.len(),
        scan(node, tx_id, floor, queue, visited, next).found == Some(queue[at]),
        holder_at(node, tx_id, queue, visited, at),
        forall|j: int| 0 <= j < at ==> !#[trigger] holder_at(node, tx_id, queue, visited, j),
    decreases queue.len(),
{
    let head = queue[0];
    if holder_at(node, tx_id, queue, visited, 0) {
        0
    } else {
        let rest = queue.skip(1);
        let asked = if visited.contains(hex(head@)) {
            visited
        } else {
            visited.insert(hex(head@))
        };
        let further = if visited.contains(hex(head@)) {
            next
        } else {
            match node(head@) {
                Some(block) => if block.daa_score >= floor {
                    next + parents(block.parents_by_level@)
                } else {
                    next
                },
                None => next,
            }
        };
        let at = scan_finds_the_first(node, tx_id, floor, rest, asked, further);
        assert(rest[at] == queue[at + 1]);
        assert forall|j: int| 0 <= j < at + 1 implies !#[trigger] holder_at(
            node,
            tx_id,
            queue,
            visited,
            j,
        ) by {
            if j > 0 && holder_at(node, tx_id, queue, visited, j) {
                assert(rest[j - 1] == queue[j]);
                if hex(queue[j]@) == hex(head@) {
                    hash_text_tells_apart(queue[j]@, head@);
                }
                assert(holder_at(node, tx_id, rest, asked, j - 1));
            }
        }
        at + 1
    }
}

/// Whether a block is the nearest one with the transaction: a path leads to it within the rounds,
/// no shorter path leads to such a block, and it is the first one in the queue of its round.
pub open spec fn is_nearest_holder(
    node: Node,
    tx_id: Seq<char>,
    floor: int,
    tips: Seq<Hash32>,
    depth: nat,
    h: Hash32,
) -> bool {
    let round = round_at(node, tx_id, floor, tips, depth);
    &&& is_holder(node, tx_id, h@)
    &&& steps_away(node, floor, tips, depth, h@)
    &&& forall|steps: nat, id: Seq<u8>| #[trigger]
        steps_away(node, floor, tips, steps, id) && steps < depth ==> !is_holder(node, tx_id, id)
    &&& exists|i: int| #[trigger]
        first_holder_at(node, tx_id, round, i) && round.queue[i] == h
}

/// The walk from a round on, if the rounds before it did not find the transaction.
proof fn walk_finds_the_nearest(
    node: Node,
    tx_id: Seq<char>,
    floor: int,
    tips: Seq<Hash32>,
    number: nat,
    rounds: nat,
)
    requires
        round_knows(node, tx_id, floor, tips, number, round_at(node, tx_id, floor, tips, number)),
    ensures
        ({
            let round = round_at(node, tx_id, floor, tips, number);
            match accepting_block(node, tx_id, floor, rounds, round.queue, round.visited) {
                Some(h) => exists|depth: nat|
                    depth < number + rounds && #[trigger] is_nearest_holder(
                        node,
                        tx_id,
                        floor,
                        tips,
                        depth,
                        h,
                    ),
                None => forall|steps: nat, id: Seq<u8>| #[trigger]
                    steps_away(node, floor, tips, steps, id) && steps < number + rounds
                        ==> !is_holder(node, tx_id, id),
            }
        }),
    decreases rounds,
{
    let round = round_at(node, tx_id, floor, tips, number);
    let result = accepting_block(node, tx_id, floor, rounds, round.queue, round.visited);
    // No block that is nearer holds the transaction.
    assert forall|steps: nat, id: Seq<u8>| #[trigger]
        steps_away(node, floor, tips, steps, id) && steps < number implies !is_holder(
        node,
        tx_id,
        id,
    ) by {
        paths_have_identifiers(node, floor, tips, steps, id);
        assert(round.visited.contains(hex(id)));
    }
    if rounds > 0 && round.queue.len() == 0 {
        assert forall|steps: nat, id: Seq<u8>| #[trigger]
            steps_away(node, floor, tips, steps, id) implies !is_holder(node, tx_id, id) by {
            empty_queue_reaches_all(node, tx_id, floor, tips, number, round, steps, id);
        }
    } else if rounds > 0 {
        let s = scan(node, tx_id, floor, round.queue, round.visited, Seq::empty());
        if s.found is Some {
            let at = scan_finds_the_first(
                node,
                tx_id,
                floor,
                round.queue,
                round.visited,
                Seq::empty(),
            );
            let h = round.queue[at];
            assert forall|j: int| 0 <= j < at implies !is_holder(
                node,
                tx_id,
                (#[trigger] round.queue[j])@,
            ) by {
                let id = round.queue[j]@;
                assert(!holder_at(node, tx_id, round.queue, round.visited, j));
                if round.visited.contains(hex(id)) {
                    assert(id.len() == 32);
                }
            }
            assert(first_holder_at(node, tx_id, round, at));
            assert(is_nearest_holder(node, tx_id, floor, tips, number, h));
            assert(result == Some(h));
        } else {
            next_round_knows(node, tx_id, floor, tips, number);
            walk_finds_the_nearest(node, tx_id, floor, tips, number + 1, (rounds - 1) as nat);
        }
    }
}

/// What the search finds, told by paths: it finds a block exactly if a path with fewer steps than
/// there are rounds leads through recent blocks to one that holds the transaction. The block that
/// it finds is the nearest one, and of those that are equally near the first in its queue.
pub proof fn search_finds_the_nearest_holder(
    node: Node,
    tx_id: Seq<char>,
    floor: int,
    rounds: nat,
    tips: Seq<Hash32>,
)
    ensures
        accepting_block(node, tx_id, floor, rounds, tips, Set::empty()) is Some <==> exists|
            steps: nat,
            id: Seq<u8>,
        | #[trigger]
            steps_away(node, floor, tips, steps, id) && steps < rounds && is_holder(
                node,
                tx_id,
                id,
            ),
        accepting_block(node, tx_id, floor, rounds, tips, Set::empty()) matches Some(h) ==> exists|
            depth: nat,
        |
            depth < rounds && #[trigger] is_nearest_holder(node, tx_id, floor, tips, depth, h),
{
    first_round_knows(node, tx_id, floor, tips);
    walk_finds_the_nearest(node, tx_id, floor, tips, 0, rounds);
    let result = accepting_block(node, tx_id, floor, rounds, tips, Set::empty());
    assert(round_at(node, tx_id, floor, tips, 0).visited == Set::<Seq<char>>::empty());
    if let Some(h) = result {
        let depth = choose|depth: nat|
            depth < rounds && #[trigger] is_nearest_holder(node, tx_id, floor, tips, depth, h);
        assert(steps_away(node, floor, tips, depth, h@));
    }
}

/// Whether the wallet with this script mined a block.
pub open spec fn mined_by(node: Node, script: Seq<u8>) -> spec_fn(Hash32) -> bool {
    |h: Hash32| script_position(node(h@), script) is Some
}

/// The mined blocks are those blocks of the merge set whose payload carries the wallet's script,
/// in their order.
pub proof fn mined_blocks_carry_the_script(
    node: Node,
    script: Seq<u8>,
    blues: Seq<Hash32>,
    found: AnalysisView,
)
    ensures
        with_blues(node, script, blues, found).accepting_block == found.accepting_block,
        with_blues(node, script, blues, found).mined_blocks == found.mined_blocks + blues.filter(
            mined_by(node, script),
        ).map_values(|h: Hash32| hex(h@)),
    decreases blues.len(),
{
    let mine = mined_by(node, script);
    let text = |h: Hash32| hex(h@);
    if blues.len() == 0 {
        assert(blues.filter(mine).len() == 0) by {
            reveal(Seq::filter);
        }
        assert(found.mined_blocks + blues.filter(mine).map_values(text) =~= found.mined_blocks);
    } else {
        let rest = blues.skip(1);
        let step = with_blue(found, blues[0]@, node(blues[0]@), script);
        mined_blocks_carry_the_script(node, script, rest, step);
        let one = seq![blues[0]];
        assert(blues =~= one + rest);
        Seq::filter_distributes_over_add(one, rest, mine);
        assert(one.filter(mine) =~= if mine(blues[0]) {
            one
        } else {
            Seq::empty()
        }) by {
            reveal(Seq::filter);
            assert(one.drop_last() =~= Seq::empty());
            assert(one.drop_last().filter(mine) =~= Seq::empty());
        }
        assert(with_blues(node, script, blues, found).mined_blocks =~= found.mined_blocks + blues.filter(
            mine,
        ).map_values(text));
    }
}

/// What an analysis names as the accepting block: the nearest block with the transaction, if a
/// path with fewer steps than there are rounds leads to one, and nothing otherwise.
pub proof fn analysis_names_the_nearest_holder(
    node: Node,
    tips: Seq<Hash32>,
    tx_id: Seq<char>,
    wallet: Seq<char>,
    daa_score: u64,
    is_coinbase: bool,
)
    ensures
        ({
            let floor = score_floor(daa_score);
            let named = analysis(node, tips, tx_id, wallet, daa_score, is_coinbase).accepting_block;
            if exists|steps: nat, id: Seq<u8>| #[trigger]
                steps_away(node, floor, tips, steps, id) && steps < MAX_ROUNDS && is_holder(
                    node,
                    tx_id,
                    id,
                ) {
                exists|depth: nat, h: Hash32|
                    depth < MAX_ROUNDS && #[trigger] is_nearest_holder(
                        node,
                        tx_id,
                        floor,
                        tips,
                        depth,
                        h,
                    ) && named == hex(h@)
            } else {
                named == Seq::<char>::empty()
            }
        }),
{
    let floor = score_floor(daa_score);
    let found = accepting_block(node, tx_id, floor, MAX_ROUNDS as nat, tips, Set::empty());
    search_finds_the_nearest_holder(node, tx_id, floor, MAX_ROUNDS as nat, tips);
    if let Some(h) = found {
        if let Some(block) = node(h@) {
            if block.merge_set_blues is Some {
                mined_blocks_carry_the_script(
                    node,
                    paid_script(block, wallet),
                    block.merge_set_blues->0@,
                    only_accepted(hex(h@)),
                );
            }
        }
        assert(analysis(node, tips, tx_id, wallet, daa_score, is_coinbase).accepting_block == hex(
            h@,
        ));
    }
}

// ---- What the parts of an analysis are

/// Whether a pattern stands somewhere in the bytes.
pub open spec fn stands_somewhere(bytes: Seq<u8>, pattern: Seq<u8>) -> bool {
    exists|i: int, j: int|
        0 <= i && j == i + pattern.len() && j <= bytes.len() && #[trigger] bytes.subrange(i, j)
            == pattern
}

/// Whether a place is the first one where a pattern stands in the bytes.
pub open spec fn first_stands_at(bytes: Seq<u8>, pattern: Seq<u8>, at: int) -> bool {
    &&& 0 <= at
    &&& at + pattern.len() <= bytes.len()
    &&& bytes.subrange(at, at + pattern.len()) == pattern
    &&& forall|i: int, j: int|
        0 <= i < at && j == i + pattern.len() ==> #[trigger] bytes.subrange(i, j) != pattern
}

proof fn occurrence_from(bytes: Seq<u8>, pattern: Seq<u8>, from: int)
    requires
        0 <= from,
    ensures
        match first_occurrence(bytes, pattern, from) {
            None => forall|i: int, j: int|
                from <= i && j == i + pattern.len() && j <= bytes.len() ==> #[trigger] bytes.subrange(
                    i,
                    j,
                ) != pattern,
            Some(at) => {
                &&& from <= at
                &&& at + pattern.len() <= bytes.len()
                &&& bytes.subrange(at, at + pattern.len()) == pattern
                &&& forall|i: int, j: int|
                    from <= i < at && j == i + pattern.len() ==> #[trigger] bytes.subrange(i, j)
                        != pattern
            },
        },
    decreases bytes.len() + 1 - from,
{
    if from + pattern.len() <= bytes.len() && bytes.subrange(from, from + pattern.len()) != pattern {
        occurrence_from(bytes, pattern, from + 1);
    }
}

/// A pattern is found exactly if it stands somewhere in the bytes, at whatever place, and then at
/// the first place where it stands.
pub proof fn patterns_are_found_where_they_first_stand(bytes: Seq<u8>, pattern: Seq<u8>)
    ensures
        first_occurrence(bytes, pattern, 0) is Some <==> stands_somewhere(bytes, pattern),
        first_occurrence(bytes, pattern, 0) matches Some(at) ==> first_stands_at(bytes, pattern, at),
        first_occurrence(bytes, pattern, 0) is None ==> forall|i: int, j: int|
            0 <= i && j == i + pattern.len() && j <= bytes.len() ==> #[trigger] bytes.subrange(i, j)
                != pattern,
{
    occurrence_from(bytes, pattern, 0);
}

/// The printable characters are the bytes from the space to the tilde, all of them, in order.
pub proof fn printable_bytes_are_kept(bytes: Seq<u8>)
    ensures
        printable(bytes) == bytes.filter(|b: u8| 32 <= b <= 126).map_values(|b: u8| b as char),
    decreases bytes.len(),
{
    let pred = |b: u8| 32 <= b <= 126;
    let letter = |b: u8| b as char;
    reveal(Seq::filter);
    if bytes.len() > 0 {
        printable_bytes_are_kept(bytes.drop_last());
        let kept = bytes.drop_last().filter(pred);
        if pred(bytes.last()) {
            assert(kept.push(bytes.last()).map_values(letter) =~= kept.map_values(letter).push(
                bytes.last() as char,
            ));
        }
    }
    assert(printable(bytes) =~= bytes.filter(pred).map_values(letter));
}

/// Whether a text is made of spaces only.
pub open spec fn all_spaces(text: Seq<char>) -> bool {
    forall|i: int| 0 <= i < text.len() ==> #[trigger] text[i] == ' '
}

/// Trimming takes spaces away at the two ends and nothing else, and leaves none there.
pub proof fn trimming_takes_only_spaces(text: Seq<char>)
    ensures
        exists|left: Seq<char>, right: Seq<char>|
            all_spaces(left) && all_spaces(right) && text == #[trigger] left.add(trimmed(text)).add(
                right,
            ),
        trimmed(text).len() > 0 ==> trimmed(text).first() != ' ' && trimmed(text).last() != ' ',
    decreases text.len(),
{
    if text.len() > 0 && text.first() == ' ' {
        let rest = text.drop_first();
        trimming_takes_only_spaces(rest);
        let (left, right) = choose|left: Seq<char>, right: Seq<char>|
            all_spaces(left) && all_spaces(right) && rest == #[trigger] left.add(trimmed(rest)).add(
                right,
            );
        let more = seq![' '] + left;
        assert(trimmed(text) == trimmed(rest));
        assert(text =~= seq![' '] + rest);
        assert(text =~= more.add(trimmed(text)).add(right));
        assert(all_spaces(more));
    } else if text.len() > 0 && text.last() == ' ' {
        let rest = text.drop_last();
        trimming_takes_only_spaces(rest);
        let (left, right) = choose|left: Seq<char>, right: Seq<char>|
            all_spaces(left) && all_spaces(right) && rest == #[trigger] left.add(trimmed(rest)).add(
                right,
            );
        let more = right + seq![' '];
        assert(trimmed(text) == trimmed(rest));
        assert(text =~= rest + seq![' ']);
        assert(text =~= left.add(trimmed(text)).add(more));
        assert(all_spaces(more));
    } else {
        let none = Seq::<char>::empty();
        assert(text =~= none.add(trimmed(text)).add(none));
    }
}

/// The worker is what is printable behind the script, trimmed, if any character but a space is
/// printable there; otherwise it is the standard name.
pub proof fn workers_are_named_by_what_is_printable(extra: Seq<u8>)
    ensures
        (exists|i: int| 0 <= i < extra.len() && 33 <= #[trigger] extra[i] <= 126) ==> worker_name(
            extra,
        ) == trimmed(printable(extra)),
        !(exists|i: int| 0 <= i < extra.len() && 33 <= #[trigger] extra[i] <= 126) ==> worker_name(
            extra,
        ) == "Standard Miner"@,
{
    let pred = |b: u8| 32 <= b <= 126;
    let letter = |b: u8| b as char;
    let text = printable(extra);
    printable_bytes_are_kept(extra);
    trimming_takes_only_spaces(text);
    let (left, right) = choose|left: Seq<char>, right: Seq<char>|
        all_spaces(left) && all_spaces(right) && text == #[trigger] left.add(trimmed(text)).add(right);
    let kept = extra.filter(pred);
    if exists|i: int| 0 <= i < extra.len() && 33 <= #[trigger] extra[i] <= 126 {
        let i = choose|i: int| 0 <= i < extra.len() && 33 <= #[trigger] extra[i] <= 126;
        extra.lemma_filter_contains(pred, i);
        let k = kept.index_of(extra[i]);
        assert(text[k] == extra[i] as char);
        assert(text[k] != ' ');
        if trimmed(text).len() == 0 {
            if k < left.len() {
                assert(left[k] == text[k]);
            } else {
                assert(right[k - left.len()] == text[k]);
            }
        }
    } else if trimmed(text).len() > 0 {
        let k = left.len() as int;
        assert(text[k] == trimmed(text)[0]);
        extra.lemma_filter_pred(pred, k);
        assert(kept[k] as char != ' ');
        extra.lemma_filter_contains_rev(pred, kept[k]);
        let i = extra.index_of(kept[k]);
        assert(33 <= extra[i] <= 126);
    }
}

/// A block holds a transaction exactly if its identifier is among those that the node tells.
pub proof fn holders_name_the_transaction(block: Block, tx_id: Seq<char>)
    ensures
        holds_tx(block, tx_id) <==> exists|id: Hash32| #[trigger]
            block.tx_ids@.contains(Some(id)) && hex(id@) == tx_id,
{
    if holds_tx(block, tx_id) {
        let i = choose|i: int|
            0 <= i < block.tx_ids@.len() && ((#[trigger] block.tx_ids@[i]) matches Some(id) && hex(id@)
                == tx_id);
        assert(block.tx_ids@.contains(Some(block.tx_ids@[i]->0)));
    }
}

/// The parents of a block are those of all levels, one level after another.
pub proof fn parents_are_those_of_every_level(levels: Seq<Vec<Hash32>>)
    ensures
        parents(levels) == levels.map_values(|level: Vec<Hash32>| level@).flatten(),
        forall|l: int, k: int|
            0 <= l < levels.len() && 0 <= k < levels[l]@.len() ==> parents(levels).contains(
                #[trigger] levels[l]@[k],
            ),
    decreases levels.len(),
{
    let view = |level: Vec<Hash32>| level@;
    let lists = levels.map_values(view);
    lists.lemma_flatten_and_flatten_alt_are_equivalent();
    if levels.len() > 0 {
        let front = levels.drop_last();
        parents_are_those_of_every_level(front);
        front.map_values(view).lemma_flatten_and_flatten_alt_are_equivalent();
        assert(lists.drop_last() =~= front.map_values(view));
        let all = parents(levels);
        assert forall|l: int, k: int| 0 <= l < levels.len() && 0 <= k < levels[l]@.len() implies all.contains(
            #[trigger] levels[l]@[k],
        ) by {
            if l < front.len() {
                assert(front[l]@[k] == levels[l]@[k]);
                let p = parents(front).index_of(levels[l]@[k]);
                assert(all[p] == levels[l]@[k]);
            } else {
                assert(all[parents(front).len() + k] == levels[l]@[k]);
            }
        }
    }
}

/// The parents of a block are looked at if its score is at most sixty below that of the output.
pub proof fn recent_blocks_are_looked_behind(daa_score: u64, score: u64)
    ensures
        score >= score_floor(daa_score) <==> score + 60 >= daa_score,
{
}

/// The script that pays a wallet is that of the first output with its address, whatever its place.
pub proof fn the_first_payment_gives_the_script(outputs: Seq<TxOutput>, wallet: Seq<char>, at: int)
    requires
        0 <= at < outputs.len(),
        outputs[at].address matches Some(a) && a@ == wallet,
        forall|j: int|
            0 <= j < at ==> !((#[trigger] outputs[j]).address matches Some(a) && a@ == wallet),
    ensures
        wallet_script(outputs, wallet) == outputs[at].script@,
    decreases at,
{
    if at > 0 {
        let rest = outputs.skip(1);
        assert(outputs[0] == outputs[0]);
        assert forall|j: int| 0 <= j < at - 1 implies !((#[trigger] rest[j]).address matches Some(a)
            && a@ == wallet) by {
            assert(rest[j] == outputs[j + 1]);
        }
        the_first_payment_gives_the_script(rest, wallet, at - 1);
    }
}

/// Where no output pays the wallet there is no script.
pub proof fn without_payment_there_is_no_script(outputs: Seq<TxOutput>, wallet: Seq<char>)
    requires
        forall|j: int|
            0 <= j < outputs.len() ==> !((#[trigger] outputs[j]).address matches Some(a) && a@
                == wallet),
    ensures
        wallet_script(outputs, wallet) == Seq::<u8>::empty(),
    decreases outputs.len(),
{
    if outputs.len() > 0 {
        let rest = outputs.skip(1);
        assert(outputs[0] == outputs[0]);
        assert forall|j: int| 0 <= j < rest.len() implies !((#[trigger] rest[j]).address matches Some(
            a,
        ) && a@ == wallet) by {
            assert(rest[j] == outputs[j + 1]);
        }
        without_payment_there_is_no_script(rest, wallet);
    }
}

/// Whether the payload of a block's first transaction carries a script somewhere.
pub open spec fn carries(block: Option<Block>, script: Seq<u8>) -> bool {
    block matches Some(b) && b.first_tx matches Some(tx) && stands_somewhere(tx.payload@, script)
}

/// A block of the merge set counts as mined exactly if its payload carries the script at any place.
/// It is then named behind those before it. The first such block gives nonce and worker, and the
/// worker is read behind the first place of the script.
pub proof fn a_block_is_mined_if_it_carries_the_script(
    found: AnalysisView,
    hash: Seq<u8>,
    block: Option<Block>,
    script: Seq<u8>,
    at: int,
)
    ensures
        with_blue(found, hash, block, script).accepting_block == found.accepting_block,
        !carries(block, script) ==> with_blue(found, hash, block, script) == found,
        carries(block, script) ==> with_blue(found, hash, block, script).mined_blocks
            == found.mined_blocks.push(hex(hash)),
        carries(block, script) && found.nonce.len() > 0 ==> with_blue(found, hash, block, script).nonce
            == found.nonce && with_blue(found, hash, block, script).worker == found.worker,
        carries(block, script) && found.nonce.len() == 0 ==> with_blue(
            found,
            hash,
            block,
            script,
        ).nonce == decimal(block->0.nonce as nat),
        carries(block, script) && found.nonce.len() == 0 && first_stands_at(
            block->0.first_tx->0.payload@,
            script,
            at,
        ) ==> with_blue(found, hash, block, script).worker == worker_name(
            block->0.first_tx->0.payload@.skip(at + script.len()),
        ),
{
    if let Some(b) = block {
        if let Some(tx) = b.first_tx {
            patterns_are_found_where_they_first_stand(tx.payload@, script);
            if let Some(found_at) = first_occurrence(tx.payload@, script, 0) {
                if first_stands_at(tx.payload@, script, at) {
                    let n = script.len();
                    if at < found_at {
                        assert(tx.payload@.subrange(at, at + n) != script);
                    } else if found_at < at {
                        assert(tx.payload@.subrange(found_at, found_at + n) != script);
                    }
                }
            }
        }
    }
}

/// The blocks of a merge set are looked at one after another: what the first of them tells is kept
/// for those behind it.
pub proof fn merge_sets_are_looked_at_in_order(
    node: Node,
    script: Seq<u8>,
    blue: Hash32,
    rest: Seq<Hash32>,
    found: AnalysisView,
)
    ensures
        with_blues(node, script, Seq::empty(), found) == found,
        with_blues(node, script, seq![blue] + rest, found) == with_blues(
            node,
            script,
            rest,
            with_blue(found, blue@, node(blue@), script),
        ),
{
    assert((seq![blue] + rest).skip(1) =~= rest);
}

/// What a mining reward is traced to: all blocks of the accepting block's merge set that carry the
/// script with which its first transaction first pays the wallet, in their order.
pub proof fn rewards_are_traced_to_their_blocks(
    node: Node,
    tips: Seq<Hash32>,
    tx_id: Seq<char>,
    wallet: Seq<char>,
    daa_score: u64,
    h: Hash32,
    at: int,
)
    requires
        accepting_block(
            node,
            tx_id,
            score_floor(daa_score),
            MAX_ROUNDS as nat,
            tips,
            Set::empty(),
        ) == Some(h),
        node(h@) matches Some(b) && b.first_tx is Some && b.merge_set_blues is Some,
        ({
            let outputs = node(h@)->0.first_tx->0.outputs@;
            &&& 0 <= at < outputs.len()
            &&& outputs[at].address matches Some(a) && a@ == wallet
            &&& outputs[at].script@.len() > 0
            &&& forall|j: int|
                0 <= j < at ==> !((#[trigger] outputs[j]).address matches Some(a) && a@ == wallet)
        }),
    ensures
        ({
            let script = node(h@)->0.first_tx->0.outputs@[at].script@;
            let blues = node(h@)->0.merge_set_blues->0@;
            let r = analysis(node, tips, tx_id, wallet, daa_score, true);
            &&& r.accepting_block == hex(h@)
            &&& r.mined_blocks == blues.filter(|b: Hash32| carries(node(b@), script)).map_values(
                |b: Hash32| hex(b@),
            )
        }),
{
    let block = node(h@)->0;
    let script = block.first_tx->0.outputs@[at].script@;
    let blues = block.merge_set_blues->0@;
    the_first_payment_gives_the_script(block.first_tx->0.outputs@, wallet, at);
    mined_blocks_carry_the_script(node, script, blues, only_accepted(hex(h@)));
    let mine = mined_by(node, script);
    let carrying = |b: Hash32| carries(node(b@), script);
    assert forall|b: Hash32| #[trigger] mine(b) == carrying(b) by {
        if let Some(x) = node(b@) {
            if let Some(tx) = x.first_tx {
                patterns_are_found_where_they_first_stand(tx.payload@, script);
            }
        }
    }
    assert(mine =~= carrying);
    let text = |b: Hash32| hex(b@);
    assert(Seq::<Seq<char>>::empty() + blues.filter(mine).map_values(text) =~= blues.filter(
        carrying,
    ).map_values(text));
}

/// An output that is no mining reward is only traced to the accepting block.
pub proof fn transfers_name_no_miner(
    node: Node,
    tips: Seq<Hash32>,
    tx_id: Seq<char>,
    wallet: Seq<char>,
    daa_score: u64,
)
    ensures
        ({
            let r = analysis(node, tips, tx_id, wallet, daa_score, false);
            &&& r.mined_blocks == Seq::<Seq<char>>::empty()
            &&& r.nonce == Seq::<char>::empty()
            &&& r.worker == Seq::<char>::empty()
        }),
{
}

/// The answer to a question is that of the first entry about the block, wherever it stands; without
/// one there is no answer.
pub proof fn answers_are_looked_up(answers: Seq<(Hash32, Option<Block>)>, hash: Seq<u8>, at: int)
    ensures
        0 <= at < answers.len() && answers[at].0@ == hash && (forall|i: int|
            0 <= i < at ==> (#[trigger] answers[i]).0@ != hash) ==> known_answer(answers, hash)
            == answers[at].1,
        (forall|i: int| 0 <= i < answers.len() ==> (#[trigger] answers[i]).0@ != hash)
            ==> known_answer(answers, hash) is None,
    decreases answers.len(),
{
    if answers.len() > 0 {
        let rest = answers.skip(1);
        answers_are_looked_up(rest, hash, at - 1);
        if forall|i: int| 0 <= i < answers.len() ==> (#[trigger] answers[i]).0@ != hash {
            assert(answers[0].0@ != hash);
            assert forall|i: int| 0 <= i < rest.len() implies (#[trigger] rest[i]).0@ != hash by {
                assert(rest[i] == answers[i + 1]);
            }
        }
        if 0 < at < answers.len() && answers[at].0@ == hash && (forall|i: int|
            0 <= i < at ==> (#[trigger] answers[i]).0@ != hash) {
            assert(answers[0].0@ != hash);
            assert(rest[at - 1] == answers[at]);
            assert forall|i: int| 0 <= i < at - 1 implies (#[trigger] rest[i]).0@ != hash by {
                assert(rest[i] == answers[i + 1]);
            }
        }
    }
}

/// The search goes as deep as eight hundred rounds lead.
pub proof fn deep_holders_are_found(
    node: Node,
    tips: Seq<Hash32>,
    tx_id: Seq<char>,
    wallet: Seq<char>,
    daa_score: u64,
    is_coinbase: bool,
    steps: nat,
    id: Seq<u8>,
)
    requires
        steps < 800,
        steps_away(node, if daa_score >= 60 { daa_score - 60 } else { 0 }, tips, steps, id),
        is_holder(node, tx_id, id),
    ensures
        analysis(node, tips, tx_id, wallet, daa_score, is_coinbase).accepting_block.len() > 0,
{
    analysis_names_the_nearest_holder(node, tips, tx_id, wallet, daa_score, is_coinbase);
    let floor = score_floor(daa_score);
    assert(steps_away(node, floor, tips, steps, id));
    let (depth, h) = choose|depth: nat, h: Hash32|
        depth < MAX_ROUNDS && #[trigger] is_nearest_holder(node, tx_id, floor, tips, depth, h)
            && analysis(node, tips, tx_id, wallet, daa_score, is_coinbase).accepting_block == hex(h@);
    assert(h@.len() == 32);
}

} // verus!
