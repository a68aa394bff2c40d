//! The look at a wallet, the search for the blocks behind a reward, and the message about it.

use kaspa_solo_bot::analysis::{
    analyze_block_payload, find_bytes, read_worker, Block, BlockAnalysis, BlockSearch, FirstTx,
    Request, TxOutput,
};
use kaspa_solo_bot::hash::Hash32;
use kaspa_solo_bot::monitor::{poll_wallet, reward_message, Reward, RewardPage, Utxo};
use kaspa_solo_bot::state::new_utxo_state;

const WALLET: &str = "kaspa:wallet";

fn hash(n: u8) -> Hash32 {
    Hash32 { bytes: [n; 32] }
}

fn utxo(n: u8, index: u32) -> Utxo {
    Utxo {
        tx: hash(n),
        index,
        amount: n as u64 * 100,
        block_daa_score: 1000 + n as u64,
        is_coinbase: n % 2 == 0,
    }
}

fn block(score: u64, parents: Vec<Hash32>) -> Block {
    Block {
        tx_ids: vec![None],
        first_tx: None,
        daa_score: score,
        nonce: 0,
        parents_by_level: vec![parents],
        merge_set_blues: None,
    }
}

fn mined(nonce: u64, payload: &[u8]) -> Block {
    let mut b = block(0, Vec::new());
    b.nonce = nonce;
    b.first_tx = Some(FirstTx { outputs: Vec::new(), payload: payload.to_vec() });
    b
}

#[test]
fn the_first_look_reports_nothing() {
    let mut record = new_utxo_state();
    let rewards = poll_wallet(&mut record, WALLET, &vec![utxo(1, 0), utxo(2, 0)]);
    assert!(rewards.is_empty());
}

#[test]
fn a_later_look_reports_what_is_new() {
    let mut record = new_utxo_state();
    poll_wallet(&mut record, WALLET, &vec![utxo(1, 0)]);
    let rewards = poll_wallet(&mut record, WALLET, &vec![utxo(1, 0), utxo(1, 1), utxo(2, 0)]);
    assert_eq!(rewards.len(), 2);
    assert_eq!(rewards[0].tx_id, hash(1).text());
    assert_eq!(rewards[1].tx_id, hash(2).text());
    assert_eq!(rewards[1].amount, 200);
    assert_eq!(rewards[1].daa_score, 1002);
    assert!(rewards[1].is_coinbase);
    assert!(!rewards[0].is_coinbase);
    // Nothing is reported twice.
    let again = poll_wallet(&mut record, WALLET, &vec![utxo(1, 0), utxo(1, 1), utxo(2, 0)]);
    assert!(again.is_empty());
}

#[test]
fn an_output_that_is_listed_twice_is_reported_once() {
    let mut record = new_utxo_state();
    poll_wallet(&mut record, WALLET, &vec![utxo(1, 0)]);
    let rewards = poll_wallet(&mut record, WALLET, &vec![utxo(3, 0), utxo(3, 0)]);
    assert_eq!(rewards.len(), 1);
}

#[test]
fn spent_outputs_are_forgotten() {
    let mut record = new_utxo_state();
    poll_wallet(&mut record, WALLET, &vec![utxo(1, 0), utxo(2, 0)]);
    assert!(poll_wallet(&mut record, WALLET, &vec![utxo(1, 0)]).is_empty());
    // It is there again, so it is new.
    assert_eq!(poll_wallet(&mut record, WALLET, &vec![utxo(1, 0), utxo(2, 0)]).len(), 1);
    // A wallet without outputs starts over.
    assert!(poll_wallet(&mut record, WALLET, &Vec::new()).is_empty());
    assert!(poll_wallet(&mut record, WALLET, &vec![utxo(5, 0)]).is_empty());
}

#[test]
fn wallets_are_watched_apart() {
    let mut record = new_utxo_state();
    poll_wallet(&mut record, "a", &vec![utxo(1, 0)]);
    assert!(poll_wallet(&mut record, "b", &vec![utxo(2, 0)]).is_empty());
    assert_eq!(poll_wallet(&mut record, "a", &vec![utxo(2, 0)]).len(), 1);
}

#[test]
fn patterns_are_found_at_their_first_place() {
    assert_eq!(find_bytes(&vec![1, 2, 3, 2, 3], &vec![2, 3]), Some(1));
    assert_eq!(find_bytes(&vec![1, 2], &vec![1, 2]), Some(0));
    assert_eq!(find_bytes(&vec![1, 2], &vec![2, 1]), None);
    assert_eq!(find_bytes(&vec![1], &vec![1, 2]), None);
    assert_eq!(find_bytes(&vec![1, 1, 2], &vec![1, 2]), Some(1));
}

#[test]
fn the_worker_stands_behind_the_script() {
    assert_eq!(read_worker(&b"XX  rig 1 \x00\x07\xff".to_vec(), 2), "rig 1");
    assert_eq!(read_worker(&b"XX".to_vec(), 2), "Standard Miner");
    assert_eq!(read_worker(&b"XX  \x01  ".to_vec(), 2), "Standard Miner");
    assert_eq!(read_worker(&b"a~\x7f b".to_vec(), 0), "a~ b");
}

#[test]
fn a_transfer_is_found_in_the_past() {
    let tx = hash(200);
    let mut holder = block(950, Vec::new());
    holder.tx_ids = vec![None, Some(hash(7)), Some(tx)];
    let answers = vec![
        (hash(1), Some(block(1000, vec![hash(2), hash(3)]))),
        (hash(2), None),
        (hash(3), Some(block(990, vec![hash(4), hash(1)]))),
        (hash(4), Some(holder)),
    ];
    let found =
        analyze_block_payload(vec![hash(1)], &answers, &tx.text(), WALLET, 1000, false);
    assert_eq!(found.accepting_block, hash(4).text());
    assert!(found.mined_blocks.is_empty());
    assert_eq!((found.nonce.as_str(), found.worker.as_str()), ("", ""));
}

#[test]
fn old_blocks_end_the_search() {
    let tx = hash(200);
    let mut holder = block(10, Vec::new());
    holder.tx_ids = vec![Some(tx)];
    let path = |score: u64| {
        vec![
            (hash(1), Some(block(score, vec![hash(2)]))),
            (hash(2), Some(Block { tx_ids: vec![Some(hash(200))], ..block(10, Vec::new()) })),
        ]
    };
    // The parents of a block are looked at down to sixty scores below the output.
    let at = analyze_block_payload(vec![hash(1)], &path(940), &tx.text(), WALLET, 1000, false);
    assert_eq!(at.accepting_block, hash(2).text());
    let below = analyze_block_payload(vec![hash(1)], &path(939), &tx.text(), WALLET, 1000, false);
    assert_eq!(below.accepting_block, "");
    let low = analyze_block_payload(vec![hash(1)], &path(0), &tx.text(), WALLET, 59, false);
    assert_eq!(low.accepting_block, hash(2).text());
    let nothing = analyze_block_payload(Vec::new(), &path(940), &tx.text(), WALLET, 1000, true);
    assert_eq!(nothing.accepting_block, "");
    assert!(holder.parents_by_level.len() == 1);
}

#[test]
fn a_reward_names_its_blocks_and_worker() {
    let tx = hash(200);
    let script = b"SCRIPT".to_vec();
    let mut accepting = block(1000, Vec::new());
    accepting.tx_ids = vec![Some(tx)];
    accepting.first_tx = Some(FirstTx {
        outputs: vec![
            TxOutput { address: None, script: b"none".to_vec() },
            TxOutput { address: Some("kaspa:other".to_string()), script: b"other".to_vec() },
            TxOutput { address: Some(WALLET.to_string()), script: script.clone() },
            TxOutput { address: Some(WALLET.to_string()), script: b"later".to_vec() },
        ],
        payload: Vec::new(),
    });
    accepting.merge_set_blues = Some(vec![hash(11), hash(12), hash(13), hash(14)]);
    let answers = vec![
        (hash(1), Some(accepting)),
        (hash(11), Some(mined(5, b"no such thing"))),
        (hash(12), Some(mined(77, b"..SCRIPT rig-2 \x01"))),
        (hash(13), None),
        (hash(14), Some(mined(78, b"SCRIPTlater"))),
    ];
    let found = analyze_block_payload(vec![hash(1)], &answers, &tx.text(), WALLET, 1000, true);
    assert_eq!(found.accepting_block, hash(1).text());
    assert_eq!(found.mined_blocks, vec![hash(12).text(), hash(14).text()]);
    assert_eq!((found.nonce.as_str(), found.worker.as_str()), ("77", "rig-2"));
    // A transfer does not ask who mined.
    let transfer = analyze_block_payload(vec![hash(1)], &answers, &tx.text(), WALLET, 1000, false);
    assert_eq!(transfer.accepting_block, hash(1).text());
    assert!(transfer.mined_blocks.is_empty());
    // A wallet that the block does not pay has no script.
    let other = analyze_block_payload(vec![hash(1)], &answers, &tx.text(), "kaspa:x", 1000, true);
    assert_eq!(other.accepting_block, hash(1).text());
    assert!(other.mined_blocks.is_empty());
    assert_eq!(other.nonce, "");
}

#[test]
fn the_search_asks_for_each_block_once_and_rests_between_rounds() {
    let mut search = BlockSearch::start(vec![hash(1), hash(1)], "missing", WALLET, 100, false);
    let mut asked = Vec::new();
    let mut rests = 0;
    loop {
        match search.request() {
            Request::Block(h) => {
                asked.push(h.bytes[0]);
                let reply = match h.bytes[0] {
                    1 => Some(block(100, vec![hash(2), hash(3), hash(2)])),
                    2 => Some(block(100, vec![hash(3), hash(1)])),
                    _ => None,
                };
                search.give_block(&reply);
            }
            Request::Pause(ms) => {
                assert_eq!(ms, 5);
                rests += 1;
                search.resume();
            }
            Request::Nothing => break,
        }
    }
    assert_eq!(asked, vec![1, 2, 3]);
    assert_eq!(rests, 3);
    assert_eq!(search.finish().accepting_block, "");
}

fn requests(is_coinbase: bool) -> Vec<u8> {
    let mut search = BlockSearch::start(vec![hash(1)], &hash(200).text(), WALLET, 100, is_coinbase);
    let mut asked = Vec::new();
    loop {
        match search.request() {
            Request::Block(h) => {
                asked.push(h.bytes[0]);
                let reply = match h.bytes[0] {
                    1 => Some(Block {
                        tx_ids: vec![Some(hash(200))],
                        first_tx: Some(FirstTx {
                            outputs: vec![TxOutput {
                                address: Some(WALLET.to_string()),
                                script: b"S".to_vec(),
                            }],
                            payload: Vec::new(),
                        }),
                        merge_set_blues: Some(vec![hash(11), hash(12)]),
                        ..block(100, vec![hash(2)])
                    }),
                    _ => None,
                };
                search.give_block(&reply);
            }
            Request::Pause(_) => search.resume(),
            Request::Nothing => return asked,
        }
    }
}

#[test]
fn only_a_reward_leads_back_to_the_found_block_and_its_merge_set() {
    assert_eq!(requests(true), vec![1, 1, 11, 12]);
    assert_eq!(requests(false), vec![1]);
}

#[test]
fn the_nearest_block_is_found_and_of_those_the_first() {
    let tx = hash(200);
    let holder = || Some(Block { tx_ids: vec![Some(hash(200))], ..block(100, Vec::new()) });
    let answers = vec![
        (hash(1), Some(block(100, vec![hash(4)]))),
        (hash(2), Some(block(100, vec![hash(6), hash(5)]))),
        (hash(4), Some(block(100, vec![hash(7)]))),
        (hash(5), holder()),
        (hash(6), holder()),
        (hash(7), holder()),
    ];
    let tips = vec![hash(1), hash(2)];
    let found = analyze_block_payload(tips, &answers, &tx.text(), WALLET, 100, false);
    assert_eq!(found.accepting_block, hash(6).text());
}

#[test]
fn the_search_gives_up_after_eight_hundred_rounds() {
    let mut search = BlockSearch::start(vec![hash(0)], "missing", WALLET, 0, false);
    let mut asked: u32 = 0;
    loop {
        match search.request() {
            Request::Block(_) => {
                asked += 1;
                let mut bytes = [1u8; 32];
                bytes[0..4].copy_from_slice(&asked.to_be_bytes());
                search.give_block(&Some(block(1, vec![Hash32 { bytes }])));
            }
            Request::Pause(_) => search.resume(),
            Request::Nothing => break,
        }
    }
    assert_eq!(asked, 800);
    assert_eq!(search.finish().accepting_block, "");
}

fn page(mined_links: Vec<String>) -> RewardPage {
    RewardPage {
        time: "T".to_string(),
        wallet: WALLET.to_string(),
        short_wallet: "k..t".to_string(),
        amount: "1.00000000".to_string(),
        balance: "2.00000000".to_string(),
        tx_link: "[tx]".to_string(),
        accepting_link: "[acc]".to_string(),
        mined_links,
    }
}

fn reward(is_coinbase: bool) -> Reward {
    Reward { tx_id: "tx".to_string(), amount: 1, daa_score: 123, is_coinbase }
}

fn findings(accepting: &str, nonce: &str, blocks: usize) -> BlockAnalysis {
    BlockAnalysis {
        accepting_block: accepting.to_string(),
        mined_blocks: vec!["h".to_string(); blocks],
        nonce: nonce.to_string(),
        worker: "rig".to_string(),
    }
}

#[test]
fn a_reward_message_tells_of_blocks_and_worker() {
    let text = reward_message(&reward(true), &findings("h", "9", 1), &page(vec!["[b]".to_string()]));
    assert_eq!(
        text,
        "⚡ <b>Native Node Reward!</b> 💎\n━━━━━━━━━━━━━━━━━━\n<b>Time:</b> <code>T</code>\n<b>Wallet:</b> <a href=\"https://kaspa.stream/addresses/kaspa:wallet\">k..t</a>\n<b>Amount:</b> <code>+1.00000000 KAS</code>\n<b>Balance:</b> <code>2.00000000 KAS</code>\n<blockquote expandable><b>TXID:</b> [tx]\n<b>Mined Block(s):</b> [b]\n<b>Accepting Block:</b> [acc]\n<b>Nonce:</b> <code>9</code>\n<b>Worker:</b> <code>rig</code>\n<b>DAA Score:</b> <code>123</code>\n</blockquote>"
    );
}

#[test]
fn a_reward_message_says_what_was_not_found() {
    let text = reward_message(&reward(true), &findings("", "", 0), &page(Vec::new()));
    assert!(text.contains("<b>Mined Block(s):</b> <code>Not Found (Unknown Miner)</code>\n<b>Accepting Block:</b> <code>Not Found (Archived)</code>\n<b>DAA Score:</b>"));
    let many = page(vec!["[a]".to_string(), "[b]".to_string()]);
    let text = reward_message(&reward(true), &findings("h", "", 2), &many);
    assert!(text.contains("<b>Mined Block(s):</b> 2 Blocks!\n ├ [a]\n ├ [b]\n<b>Accepting Block:</b> [acc]\n"));
}

#[test]
fn a_transfer_message_names_its_kind() {
    let text = reward_message(&reward(false), &findings("h", "9", 0), &page(Vec::new()));
    assert!(text.starts_with("💸 <b>Incoming Transfer!</b> 💸\n"));
    assert!(text.contains("<b>TXID:</b> [tx]\n<b>Type:</b> 💳 Normal Transfer\n<b>Accepting Block:</b> [acc]\n<b>DAA Score:</b> <code>123</code>\n</blockquote>"));
    assert!(!text.contains("Nonce"));
}
