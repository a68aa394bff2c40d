//! The assistant, its tools and its knowledge base.

use kaspa_solo_bot::ai::{
    balance_wallets, conclude_intent, dispatch_tool, execute_get_balance, execute_get_network,
    execute_global_search, follow_up, message_members, plan_reply, process_conversational_intent,
    process_voice_message, read_chat_reply, read_final_text, read_pages, read_transcript, role,
    search_url, tool_balance_line, tool_specs, BalanceLine, ChatMessage, ChatRequest, IntentPlan, ReplyPlan,
    SearchPage, SearchReply, ToolAction, ToolCall, ToolCalls, VoiceOutcome, VoicePlan,
};
use kaspa_solo_bot::context::AppContext;
use kaspa_solo_bot::json::{list_under, number_under, parse, text_under, Step};
use kaspa_solo_bot::memory::{new_memory, remember, Role, Turn};
use kaspa_solo_bot::rag::{
    candidates, fill_embeddings, init_knowledge_base, rank, read_embedding, read_query_embedding,
    report_documents, search_kaspa_docs, start_knowledge_base, Document, KnowledgeBase, Score,
    SearchPlan,
};
use kaspa_solo_bot::state::subscribe;

const DONATION: &str = "kaspa:qz0yqq8z3twwgg7lq2mjzg6w4edqys45w2wslz7tym2tc6s84580vvx9zr44g";

fn turn(role: Role, content: &str) -> Turn {
    Turn { role, content: content.to_string() }
}

#[test]
fn json_is_read_along_paths() {
    let v = parse(br#"{"a": [{"b": "text"}, 1.5], "n": null}"#).unwrap();
    assert_eq!(
        text_under(&v, &vec![Step::Key("a"), Step::Item(0), Step::Key("b")]),
        Some("text".to_string())
    );
    assert_eq!(text_under(&v, &vec![Step::Key("a"), Step::Item(1)]), None);
    assert_eq!(text_under(&v, &vec![Step::Key("x"), Step::Key("y")]), None);
    assert_eq!(list_under(&v, &vec![Step::Key("a")]), Some(2));
    assert_eq!(list_under(&v, &vec![Step::Key("n")]), None);
    assert_eq!(
        number_under(&v, &vec![Step::Key("a"), Step::Item(1)]),
        Some(1.5f64.to_bits())
    );
    assert!(parse(b"{").is_none());
}

#[test]
fn the_memory_keeps_ten_turns() {
    let mut memory = new_memory();
    for i in 0..12 {
        let history = remember(&mut memory, 1, turn(Role::User, &i.to_string()));
        assert_eq!(history.len(), if i < 10 { i + 1 } else { 10 });
        assert_eq!(history.last().unwrap().content, i.to_string());
    }
    let history = remember(&mut memory, 1, turn(Role::Assistant, "end"));
    assert_eq!(history[0].content, "3");
    assert_eq!(history[9].role, Role::Assistant);
    // Another user has a memory of their own.
    assert_eq!(remember(&mut memory, 2, turn(Role::User, "x")).len(), 1);
}

#[test]
fn voice_notes_need_a_key() {
    for key in [None, Some("")] {
        match process_voice_message(key, true, 7) {
            VoicePlan::Disabled(text) => assert_eq!(text, "🎙️ <b>Audio Detected:</b> Voice analysis is currently disabled (Missing API Key). Please use text."),
            _ => panic!("not refused"),
        }
    }
    assert!(matches!(process_voice_message(Some("k"), false, 7), VoicePlan::Ignore));
    match process_voice_message(Some("k"), true, 7) {
        VoicePlan::Transcribe { notice, upload } => {
            assert_eq!(notice, "🎧 <i>Listening and processing your voice note...</i>");
            assert_eq!(upload.temp_path, "temp_7.ogg");
            assert_eq!((upload.file_name.as_str(), upload.mime.as_str()), ("voice.ogg", "audio/ogg"));
            assert_eq!((upload.model.as_str(), upload.language.as_str()), ("whisper-1", "ar"));
        }
        _ => panic!("not transcribed"),
    }
    match process_voice_message(Some("k"), true, -12) {
        VoicePlan::Transcribe { upload, .. } => assert_eq!(upload.temp_path, "temp_-12.ogg"),
        _ => panic!("not transcribed"),
    }
}

#[test]
fn a_transcript_is_a_text() {
    match read_transcript(br#"{"text": "hello"}"#) {
        VoiceOutcome::Heard(text) => assert_eq!(text, "hello"),
        _ => panic!("not heard"),
    }
    for body in [&b"{}"[..], &b"oops"[..], &br#"{"text": 5}"#[..]] {
        match read_transcript(body) {
            VoiceOutcome::Unclear(text) => assert_eq!(
                text,
                "⚠️ Sorry, I could not transcribe the audio clearly. Please try again."
            ),
            _ => panic!("heard"),
        }
    }
}

#[test]
fn without_a_key_nothing_is_remembered() {
    let mut ctx = AppContext::new(1);
    assert!(matches!(
        process_conversational_intent(&mut ctx, 5, "hi", None),
        IntentPlan::Fallback
    ));
    assert!(matches!(
        process_conversational_intent(&mut ctx, 5, "hi", Some("")),
        IntentPlan::Fallback
    ));
    assert_eq!(remember(&mut ctx.memory, 5, turn(Role::User, "x")).len(), 1);
}

fn asked(plan: IntentPlan) -> ChatRequest {
    match plan {
        IntentPlan::Ask(request) => request,
        _ => panic!("nothing is asked"),
    }
}

#[test]
fn a_request_holds_the_task_and_the_history() {
    let mut ctx = AppContext::new(1);
    let first = asked(process_conversational_intent(&mut ctx, 5, "one", Some("k")));
    assert_eq!(first.model, "gpt-4o-mini");
    assert!(first.offer_tools);
    assert_eq!(first.messages.len(), 2);
    conclude_intent(&mut ctx, 5, None, Some("answer".to_string()));
    let second = asked(process_conversational_intent(&mut ctx, 5, "two", Some("k")));
    assert_eq!(second.messages.len(), 4);
    match &second.messages[0] {
        ChatMessage::System(text) => {
            assert!(text.starts_with("You are the Kaspa Solo Enterprise AI."))
        }
        _ => panic!("no task"),
    }
    assert!(matches!(&second.messages[1], ChatMessage::User(t) if t == "one"));
    assert!(matches!(&second.messages[2], ChatMessage::Assistant(t) if t == "answer"));
    assert!(matches!(&second.messages[3], ChatMessage::User(t) if t == "two"));
    for _ in 0..20 {
        let request = asked(process_conversational_intent(&mut ctx, 5, "more", Some("k")));
        assert!(request.messages.len() <= 11);
    }
}

#[test]
fn the_answer_is_the_last_text() {
    let mut ctx = AppContext::new(1);
    let both = conclude_intent(&mut ctx, 5, Some("final".to_string()), Some("first".to_string()));
    assert_eq!(both, Some("final".to_string()));
    let first = conclude_intent(&mut ctx, 5, None, Some("first".to_string()));
    assert_eq!(first, Some("first".to_string()));
    assert_eq!(conclude_intent(&mut ctx, 5, None, None), None);
    let history = remember(&mut ctx.memory, 5, turn(Role::User, "x"));
    let contents: Vec<&str> = history.iter().map(|t| t.content.as_str()).collect();
    assert_eq!(contents, vec!["final", "first", "x"]);
}

#[test]
fn replies_without_tools_have_a_text() {
    let reply = read_chat_reply(br#"{"choices": [{"message": {"content": "hi"}}]}"#).unwrap();
    assert_eq!(reply.content, Some("hi".to_string()));
    assert!(matches!(reply.tool_calls, ToolCalls::Absent));
    assert!(reply.message.is_some());
    let empty = read_chat_reply(b"{}").unwrap();
    assert_eq!(empty.content, None);
    assert!(matches!(empty.tool_calls, ToolCalls::Absent));
    assert!(empty.message.is_none());
    assert!(read_chat_reply(b"not json").is_none());
}

#[test]
fn replies_with_tools_have_calls() {
    let body = br#"{"choices": [{"message": {"content": null, "tool_calls": [
        {"id": "1", "function": {"name": "search_kaspa_docs", "arguments": "{\"query\": \"dag\"}"}},
        {"function": {"name": "get_network_stats"}},
        {}
    ]}}]}"#;
    let reply = read_chat_reply(body).unwrap();
    assert_eq!(reply.content, None);
    let calls = match reply.tool_calls {
        ToolCalls::Calls(calls) => calls,
        _ => panic!("no calls"),
    };
    assert_eq!(calls.len(), 3);
    assert_eq!((calls[0].id.as_str(), calls[0].name.as_str()), ("1", "search_kaspa_docs"));
    assert!(matches!(dispatch_tool(&calls[0]), ToolAction::SearchDocs(q) if q == "dag"));
    assert_eq!((calls[1].id.as_str(), calls[1].arguments.as_str()), ("", "{}"));
    assert!(matches!(dispatch_tool(&calls[1]), ToolAction::NetworkStats));
    assert!(matches!(dispatch_tool(&calls[2]), ToolAction::Unknown(t) if t == "Unknown function"));
}

#[test]
fn calls_that_are_no_list_are_malformed() {
    for calls in ["null", "{}", "\"x\""] {
        let body = format!("{{\"choices\": [{{\"message\": {{\"tool_calls\": {}}}}}]}}", calls);
        let reply = read_chat_reply(body.as_bytes()).unwrap();
        assert!(matches!(reply.tool_calls, ToolCalls::Malformed));
    }
}

#[test]
fn a_reply_decides_what_follows() {
    assert!(matches!(plan_reply(b"?"), ReplyPlan::Unreadable));
    assert!(matches!(plan_reply(b"{}"), ReplyPlan::Answer(None)));
    match plan_reply(br#"{"choices": [{"message": {"content": "hi"}}]}"#) {
        ReplyPlan::Answer(text) => assert_eq!(text, Some("hi".to_string())),
        _ => panic!("no answer"),
    }
    assert!(matches!(
        plan_reply(br#"{"choices": [{"message": {"content": "hi", "tool_calls": null}}]}"#),
        ReplyPlan::Malformed
    ));
    match plan_reply(br#"{"choices": [{"message": {"content": "hi", "tool_calls": []}}]}"#) {
        ReplyPlan::UseTools(round) => {
            assert!(round.calls.is_empty());
            assert_eq!(round.content, Some("hi".to_string()));
            assert_eq!(
                text_under(&round.message, &vec![Step::Key("content")]),
                Some("hi".to_string())
            );
        }
        _ => panic!("no tools"),
    }
}

#[test]
fn every_offered_tool_can_be_called() {
    let tools = tool_specs();
    let names: Vec<&str> = tools.iter().map(|t| t.name.as_str()).collect();
    assert_eq!(
        names,
        vec!["get_wallet_balance", "get_network_stats", "search_kaspa_docs", "search_live_internet"]
    );
    for tool in &tools {
        let call = ToolCall {
            id: "1".to_string(),
            name: tool.name.clone(),
            arguments: "{\"query\": \"q\"}".to_string(),
        };
        let action = dispatch_tool(&call);
        assert!(!matches!(action, ToolAction::Unknown(_)));
        let takes_query =
            matches!(&action, ToolAction::SearchDocs(q) | ToolAction::SearchInternet(q) if q == "q");
        assert_eq!(takes_query, tool.query.is_some());
    }
}

#[test]
fn a_query_that_is_missing_is_empty() {
    for arguments in ["{}", "", "[]", "{\"query\": 3}"] {
        let call = ToolCall {
            id: String::new(),
            name: "search_live_internet".to_string(),
            arguments: arguments.to_string(),
        };
        assert!(matches!(dispatch_tool(&call), ToolAction::SearchInternet(q) if q.is_empty()));
    }
}

#[test]
fn a_follow_up_carries_what_the_tools_said() {
    let mut ctx = AppContext::new(1);
    let request = asked(process_conversational_intent(&mut ctx, 5, "one", Some("k")));
    let body = br#"{"choices": [{"message": {"role": "assistant", "tool_calls": [
        {"id": "1", "function": {"name": "get_network_stats"}}]}}]}"#;
    let round = match plan_reply(body) {
        ReplyPlan::UseTools(round) => round,
        _ => panic!("no tools"),
    };
    assert_eq!(round.content, None);
    let next = follow_up(request, round, vec!["fine".to_string()]);
    assert_eq!(next.model, "gpt-4o-mini");
    assert!(!next.offer_tools);
    assert_eq!(next.messages.len(), 4);
    match &next.messages[2] {
        ChatMessage::Echo(v) => {
            assert_eq!(text_under(v, &vec![Step::Key("role")]), Some("assistant".to_string()))
        }
        _ => panic!("no echo"),
    }
    match &next.messages[3] {
        ChatMessage::Tool { call_id, name, content } => assert_eq!(
            (call_id.as_str(), name.as_str(), content.as_str()),
            ("1", "get_network_stats", "fine")
        ),
        _ => panic!("no report"),
    }
}

#[test]
fn messages_have_roles_and_members() {
    let text = |t: &str| t.to_string();
    let system = ChatMessage::System(text("s"));
    assert_eq!(role(&system), Some(text("system")));
    assert_eq!(
        message_members(&system),
        vec![(text("role"), text("system")), (text("content"), text("s"))]
    );
    assert_eq!(role(&ChatMessage::User(text("u"))), Some(text("user")));
    let assistant = ChatMessage::Assistant(text("a"));
    assert_eq!(role(&assistant), Some(text("assistant")));
    assert_eq!(message_members(&assistant)[1], (text("content"), text("a")));
    let tool = ChatMessage::Tool { call_id: text("1"), name: text("n"), content: text("c") };
    assert_eq!(
        message_members(&tool),
        vec![
            (text("role"), text("tool")),
            (text("tool_call_id"), text("1")),
            (text("name"), text("n")),
            (text("content"), text("c"))
        ]
    );
    let echo = ChatMessage::Echo(parse(b"{}").unwrap());
    assert_eq!(role(&echo), None);
    assert!(message_members(&echo).is_empty());
}

#[test]
fn the_knowledge_base_is_started_once() {
    let reply = || vec![Some(br#"{"data": [{"embedding": [1]}]}"#.to_vec())];
    let mut base = KnowledgeBase::new();
    assert!(start_knowledge_base(&mut base, None, vec![document("x", None)], &reply()).is_none());
    assert!(base.get().is_none());
    let docs = vec![document("a", None), document("b", None)];
    let first = start_knowledge_base(&mut base, Some("k"), docs, &reply()).unwrap();
    assert!(first.set);
    // The document that is still without an embedding is written too.
    let file = first.file.unwrap();
    assert_eq!(file.len(), 2);
    assert_eq!(file[0].embedding, Some(vec![1.0f64.to_bits()]));
    assert_eq!((file[1].title.as_str(), &file[1].embedding), ("b", &None));
    let again = start_knowledge_base(&mut base, Some("k"), vec![document("c", None)], &Vec::new());
    let again = again.unwrap();
    assert!(!again.set);
    assert!(again.file.is_none());
    assert_eq!(base.get().unwrap()[0].title, "a");
    assert!(start_knowledge_base(&mut base, Some(""), Vec::new(), &Vec::new()).is_none());
    assert_eq!(base.get().unwrap().len(), 2);
}

#[test]
fn the_final_text_may_be_missing() {
    assert_eq!(
        read_final_text(br#"{"choices": [{"message": {"content": "hi"}}]}"#),
        Some(Some("hi".to_string()))
    );
    assert_eq!(read_final_text(b"{}"), Some(None));
    assert_eq!(read_final_text(b"]"), None);
}

#[test]
fn balances_are_asked_for_addresses_only() {
    let mut ctx = AppContext::new(1);
    subscribe(&mut ctx.state, DONATION, 3);
    subscribe(&mut ctx.state, "kaspa:nonsense", 3);
    assert_eq!(balance_wallets(&ctx.state, 3), vec![DONATION.to_string()]);
    assert!(balance_wallets(&ctx.state, 4).is_empty());
}

#[test]
fn the_balance_tool_reports() {
    let lines = vec![
        BalanceLine { short: "a".to_string(), amount: "1.5".to_string(), utxos: 12 },
        tool_balance_line("b".to_string(), "2".to_string(), &Vec::new()),
    ];
    assert_eq!(
        execute_get_balance(&lines, Some("3.5")),
        "Total Balance: 3.5 KAS. Details: Wallet a: 1.5 KAS. UTXOs: 12. Wallet b: 2 KAS. UTXOs: 0. "
    );
    assert_eq!(
        execute_get_balance(&lines, None),
        "User has 0 balances or no wallets tracked."
    );
}

#[test]
fn the_network_tool_reports() {
    assert_eq!(
        execute_get_network(Some(true), Some(12), Some("9")),
        "Sync Status: 100% Synced. DAA Score: 12. Circulating Supply: 9 KAS. "
    );
    assert_eq!(execute_get_network(Some(false), None, None), "Sync Status: Syncing. ");
    assert_eq!(execute_get_network(None, None, None), "");
}

#[test]
fn a_search_is_one_parameter_of_the_address() {
    assert_eq!(
        search_url("kaspa price & news=ü~-._"),
        "https://en.wikipedia.org/w/api.php?action=query&list=search&srsearch=kaspa%20price%20%26%20news%3D%C3%BC~-._&utf8=&format=json"
    );
    assert_eq!(
        search_url(""),
        "https://en.wikipedia.org/w/api.php?action=query&list=search&srsearch=&utf8=&format=json"
    );
}

#[test]
fn three_pages_are_read() {
    let body = br#"{"query": {"search": [
        {"title": "A", "snippet": "<b>a</b>"}, {"title": "B"}, {}, {"title": "D"}]}}"#;
    let pages = read_pages(body).unwrap();
    let read: Vec<(&str, &str)> =
        pages.iter().map(|p| (p.title.as_str(), p.snippet.as_str())).collect();
    assert_eq!(read, vec![("A", "<b>a</b>"), ("B", ""), ("", "")]);
    assert_eq!(read_pages(br#"{"query": {"search": []}}"#).unwrap().len(), 0);
    assert!(read_pages(br#"{"query": {}}"#).is_none());
    assert!(read_pages(b"<html>").is_none());
}

#[test]
fn the_search_tool_reports() {
    let pages = vec![
        SearchPage { title: "A".to_string(), snippet: "a".to_string() },
        SearchPage { title: "B".to_string(), snippet: "b".to_string() },
    ];
    assert_eq!(
        execute_global_search(&SearchReply::Pages(pages)),
        "Global Web Search Results:\\nSource: A\\nContent: a\\n\\nSource: B\\nContent: b\\n\\n"
    );
    assert_eq!(
        execute_global_search(&SearchReply::Pages(Vec::new())),
        "Global search completed but found no highly relevant new data."
    );
    assert_eq!(
        execute_global_search(&SearchReply::Unreadable),
        "Error: Could not parse global server response."
    );
    assert_eq!(
        execute_global_search(&SearchReply::Unreachable),
        "Error: Global internet connection failed."
    );
}

fn document(title: &str, embedding: Option<Vec<u64>>) -> Document {
    Document { title: title.to_string(), content: format!("about {}", title), embedding }
}

#[test]
fn missing_embeddings_are_asked_for() {
    let docs = vec![document("a", None), document("b", Some(vec![1])), document("c", None)];
    assert!(init_knowledge_base(None, &docs).is_none());
    assert!(init_knowledge_base(Some(""), &docs).is_none());
    let tasks = init_knowledge_base(Some("k"), &docs).unwrap();
    assert_eq!(tasks.len(), 2);
    assert_eq!((tasks[0].doc, tasks[1].doc), (0, 2));
    assert_eq!(tasks[1].request.input, "about c");
    assert_eq!(tasks[1].request.model, "text-embedding-3-small");
}

#[test]
fn embeddings_are_taken_from_the_replies() {
    let mut docs = vec![document("a", None), document("b", Some(vec![1])), document("c", None)];
    let reply = br#"{"data": [{"embedding": [1.5, "x", -2, null]}]}"#.to_vec();
    let updated = fill_embeddings(&mut docs, &vec![None, Some(reply)]);
    assert!(updated);
    assert_eq!(docs[0].embedding, None);
    assert_eq!(docs[1].embedding, Some(vec![1]));
    assert_eq!(
        docs[2].embedding,
        Some(vec![1.5f64.to_bits(), (-2.0f64).to_bits()])
    );
    assert_eq!(docs[2].title, "c");
    // Only the first one is still missing.
    assert_eq!(init_knowledge_base(Some("k"), &docs).unwrap().len(), 1);
    assert!(!fill_embeddings(&mut docs, &vec![Some(b"{}".to_vec())]));
    assert!(!fill_embeddings(&mut docs, &Vec::new()));
    assert!(fill_embeddings(
        &mut docs,
        &vec![Some(br#"{"data": [{"embedding": []}]}"#.to_vec())]
    ));
    assert_eq!(docs[0].embedding, Some(Vec::new()));
    // Nothing is missing any more, so nothing changes.
    assert!(init_knowledge_base(Some("k"), &docs).unwrap().is_empty());
    assert!(!fill_embeddings(
        &mut docs,
        &vec![Some(br#"{"data": [{"embedding": [1]}]}"#.to_vec())]
    ));
}

#[test]
fn a_base_with_all_its_embeddings_asks_for_nothing() {
    let mut docs = vec![document("a", None), document("b", Some(vec![1])), document("c", None)];
    let reply = || Some(br#"{"data": [{"embedding": [1]}]}"#.to_vec());
    assert!(fill_embeddings(&mut docs, &vec![reply(), reply()]));
    assert!(init_knowledge_base(Some("k"), &docs).unwrap().is_empty());
}

#[test]
fn the_knowledge_base_is_set_once() {
    let mut base = KnowledgeBase::new();
    assert!(base.get().is_none());
    assert!(base.set(vec![document("a", None)]));
    assert!(!base.set(Vec::new()));
    assert_eq!(base.get().unwrap().len(), 1);
    assert_eq!(base.get().unwrap()[0].title, "a");
}

#[test]
fn embeddings_are_read_as_doubles() {
    assert_eq!(
        read_embedding(br#"{"data": [{"embedding": [0.25, 3]}]}"#),
        Some(vec![0.25f64.to_bits(), 3.0f64.to_bits()])
    );
    assert_eq!(read_embedding(br#"{"data": []}"#), None);
    assert_eq!(read_embedding(b"?"), None);
}

#[test]
fn a_search_needs_a_base_and_an_embedding() {
    match search_kaspa_docs(None, "q") {
        SearchPlan::Refuse(text) => assert_eq!(text, "Error: Knowledge base not initialized."),
        _ => panic!("not refused"),
    }
    let docs = Vec::new();
    match search_kaspa_docs(Some(&docs), "q") {
        SearchPlan::Embed(request) => assert_eq!(request.input, "q"),
        _ => panic!("refused"),
    }
    assert_eq!(read_query_embedding(None), Err("Failed to embed query.".to_string()));
    for body in [&b"oops"[..], &b"{}"[..], &br#"{"data": [{"embedding": []}]}"#[..]] {
        assert_eq!(
            read_query_embedding(Some(body)),
            Err("Failed to process search query.".to_string())
        );
    }
    assert_eq!(
        read_query_embedding(Some(br#"{"data": [{"embedding": [1]}]}"#)),
        Ok(vec![1.0f64.to_bits()])
    );
}

#[test]
fn ranking_puts_larger_keys_first_and_keeps_ties_in_order() {
    assert_eq!(rank(&vec![3, 7, 3, 9, 7]), vec![3, 1, 4, 0, 2]);
    assert_eq!(rank(&vec![i64::MIN, i64::MAX]), vec![1, 0]);
    assert!(rank(&Vec::new()).is_empty());
}

fn score(key: i64, label: &str) -> Score {
    Score { key, label: label.to_string() }
}

#[test]
fn the_two_best_documents_are_reported() {
    let docs = vec![
        document("none", None),
        document("low", Some(vec![1])),
        document("high", Some(vec![1])),
        document("mid", Some(vec![1])),
    ];
    assert_eq!(candidates(&docs), vec![1, 2, 3]);
    let scores = vec![score(1, "0.10"), score(30, "0.90"), score(20, "0.50")];
    assert_eq!(
        report_documents(&docs, &scores),
        "--- Document (Relevance: 0.90) ---\nTitle: high\nContent: about high\n\n--- Document (Relevance: 0.50) ---\nTitle: mid\nContent: about mid"
    );
    assert_eq!(
        report_documents(&vec![document("x", Some(vec![1]))], &vec![score(0, "0.00")]),
        "--- Document (Relevance: 0.00) ---\nTitle: x\nContent: about x"
    );
    assert_eq!(
        report_documents(&vec![document("x", None)], &Vec::new()),
        "No relevant official documentation found for this query."
    );
}
