# Kaspa solo bot

A chat bot for people who mine Kaspa on their own node. It keeps a book of the wallets that each
chat tracks, watches their unspent outputs, finds out which blocks a reward came from, answers
commands with reports, and talks to a language model that can use tools.

The library in `src/` holds the decisions of the bot and is verified with Verus. It never talks
to the outside: it names what has to be sent, stored or fetched, and takes what came back.

| module     | what it holds                                                             |
|------------|---------------------------------------------------------------------------|
| `address`  | which texts are wallet addresses                                          |
| `ai`       | conversation, tools, voice notes, web search                              |
| `analysis` | the search through the block DAG for the blocks behind an output          |
| `clock`    | the time in reports                                                       |
| `commands` | what each command and each button brings about                            |
| `context`  | the state of the bot, and the list of wallets to watch                    |
| `hash`     | block and transaction identifiers                                         |
| `json`     | reading JSON along paths                                                  |
| `market`   | what the price and fee services answer                                    |
| `memory`   | the recent turns of each conversation                                     |
| `monitor`  | what is new in a wallet, and the message about it                         |
| `rag`      | the knowledge base: embeddings, ranking, report                           |
| `reply`    | messages and their buttons                                                |
| `reports`  | the texts of all reports                                                  |
| `session`  | what holds after any number of commands                                   |
| `startup`  | settings, the move of an old wallet file, the menu                        |
| `state`    | the wallet book, the record of seen outputs, the statements on the table  |
| `text`     | decimal numbers, comparing and joining                                    |

`app/` is the program around it: the messenger, the node, the database and the web services, and
all arithmetic on floating point numbers. Amounts and rates reach the library as finished text,
embeddings and prices as the bit patterns of doubles, and scores as integers in the same order.
Whether a price, a market capitalisation or a total is zero is decided there too, on doubles.

The maps of `dashmap` are shared by `&mut` only, so the program keeps the state behind one lock.

## Dependencies

All versions are exact. Two crates are listed only to hold an indirect dependency back:
`takecell`, because its next release asks for a newer compiler, and `wasm-bindgen`, because
`workflow-core`, on which `kaspa-addresses` is built, does not compile with later releases. The
client crates of the node are not listed; `app/node.rs` needs them.
