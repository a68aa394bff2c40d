//! The assistant: voice notes, conversation with tools, and what the tools report.

use crate::address::is_address;
use crate::commands::reachable_wallets;
use crate::context::AppContext;
use crate::json::{
    below, copy_under, json_contents, json_document, list_at, list_under, nothing, parse, path_of,
    reach, text_at, text_of, text_under, JsonNodes, JsonStep, Step,
};
use crate::memory::{
    history_of, memory_after, memory_contents, remember, turn_views, Role, Turn, TurnView, MEMORY_LIMIT,
};
use crate::monitor::Utxo;
use crate::state::{tracked_wallets, trackers, wallet_contents, Book, SharedState};
use crate::text::{
    decimal, push_decimal, same_text, signed_decimal, signed_decimal_text,
    signed_numbers_are_told_apart, texts,
};
use vstd::prelude::*;
use vstd::utf8::encode_utf8;

verus! {

/// A text, or the empty text if there is none.
pub open spec fn or_empty(text: Option<Seq<char>>) -> Seq<char> {
    match text {
        Some(t) => t,
        None => Seq::empty(),
    }
}

fn unwrap_or_empty(text: Option<String>) -> (r: String)
    ensures
        r@ == or_empty(text_of(text)),
{
    match text {
        Some(t) => t,
        None => String::new(),
    }
}

/// Whether there is a key to the language model: one that is set and not empty.
pub open spec fn has_key(api_key: Option<&str>) -> bool {
    api_key matches Some(k) && k@.len() > 0
}

/// Whether there is a key to the language model.
pub fn key_is_set(api_key: Option<&str>) -> (r: bool)
    ensures
        r == has_key(api_key),
{
    match api_key {
        Some(k) => !k.is_empty(),
        None => false,
    }
}

// ---- Voice notes

/// What to do with a voice note.
pub enum VoicePlan {
    /// Tell the user that voice notes are not read.
    Disabled(String),
    /// Nothing: there is no voice note in the message.
    Ignore,
    /// Tell the user that the note is being listened to, load it into a file, and have it
    /// transcribed.
    Transcribe { notice: String, upload: VoiceUpload },
}

/// How a voice note is handed to the transcription service.
pub struct VoiceUpload {
    /// The file that the note is loaded into, and that is removed after the upload.
    pub temp_path: String,
    /// The name and the type that the note is uploaded with.
    pub file_name: String,
    pub mime: String,
    pub model: String,
    pub language: String,
}

/// Whether this is how the note of a message is uploaded.
pub open spec fn uploads(upload: VoiceUpload, message_id: i32) -> bool {
    &&& upload.temp_path@ == temp_path_text(message_id)
    &&& upload.file_name@ == "voice.ogg"@
    &&& upload.mime@ == "audio/ogg"@
    &&& upload.model@ == "whisper-1"@
    &&& upload.language@ == "ar"@
}

pub open spec fn temp_path_text(message_id: i32) -> Seq<char> {
    "temp_"@ + signed_decimal(message_id as int) + ".ogg"@
}

/// Decides on a message that may hold a voice note.
pub fn process_voice_message(api_key: Option<&str>, has_voice: bool, message_id: i32) -> (r: VoicePlan)
    ensures
        !has_key(api_key) ==> (r matches VoicePlan::Disabled(t) && t@
            == "🎙️ <b>Audio Detected:</b> Voice analysis is currently disabled (Missing API Key). Please use text."@),
        has_key(api_key) && !has_voice ==> r is Ignore,
        has_key(api_key) && has_voice ==> (r matches VoicePlan::Transcribe { notice, upload }
            && notice@ == "🎧 <i>Listening and processing your voice note...</i>"@ && uploads(
            upload,
            message_id,
        )),
{
    if !key_is_set(api_key) {
        return VoicePlan::Disabled(
            "🎙️ <b>Audio Detected:</b> Voice analysis is currently disabled (Missing API Key). Please use text.".to_owned(),
        );
    }
    if !has_voice {
        return VoicePlan::Ignore;
    }
    let mut temp_path = "temp_".to_owned();
    let id = signed_decimal_text(message_id as i64);
    temp_path.append(id.as_str());
    temp_path.append(".ogg");
    VoicePlan::Transcribe {
        notice: "🎧 <i>Listening and processing your voice note...</i>".to_owned(),
        upload: VoiceUpload {
            temp_path,
            file_name: "voice.ogg".to_owned(),
            mime: "audio/ogg".to_owned(),
            model: "whisper-1".to_owned(),
            language: "ar".to_owned(),
        },
    }
}

/// What a transcription says: the text under its key `text`, if the reply is JSON and has one.
pub open spec fn transcript(doc: Option<JsonNodes>) -> Option<Seq<char>> {
    match doc {
        Some(d) => text_at(d, seq![JsonStep::Key("text"@)]),
        None => None,
    }
}

/// What came of a voice note.
pub enum VoiceOutcome {
    /// The user said this.
    Heard(String),
    /// Tell the user that it could not be understood.
    Unclear(String),
}

/// What follows from a transcript.
pub fn voice_outcome(heard: Option<String>) -> (r: VoiceOutcome)
    ensures
        match heard {
            Some(t) => r == VoiceOutcome::Heard(t),
            None => r matches VoiceOutcome::Unclear(t) && t@
                == "⚠️ Sorry, I could not transcribe the audio clearly. Please try again."@,
        },
{
    match heard {
        Some(t) => VoiceOutcome::Heard(t),
        None => VoiceOutcome::Unclear(
            "⚠️ Sorry, I could not transcribe the audio clearly. Please try again.".to_owned(),
        ),
    }
}

/// Reads the reply of the transcription service.
pub fn read_transcript(body: &[u8]) -> (r: VoiceOutcome)
    ensures
        match transcript(json_document(body@)) {
            Some(t) => r matches VoiceOutcome::Heard(s) && s@ == t,
            None => r matches VoiceOutcome::Unclear(t) && t@
                == "⚠️ Sorry, I could not transcribe the audio clearly. Please try again."@,
        },
{
    match parse(body) {
        Some(v) => {
            let steps = vec![Step::Key("text")];
            assert(path_of(steps@) =~= seq![JsonStep::Key("text"@)]);
            voice_outcome(text_under(&v, &steps))
        },
        None => voice_outcome(None),
    }
}

// ---- Conversation

/// A message to the language model.
pub enum ChatMessage {
    System(String),
    User(String),
    Assistant(String),
    /// A message of the model itself, as it came.
    Echo(serde_json::Value),
    /// What a tool reported.
    Tool { call_id: String, name: String, content: String },
}

/// The view of a message.
pub enum ChatMessageView {
    System(Seq<char>),
    User(Seq<char>),
    Assistant(Seq<char>),
    Echo(JsonNodes),
    Tool { call_id: Seq<char>, name: Seq<char>, content: Seq<char> },
}

impl View for ChatMessage {
    type V = ChatMessageView;

    open spec fn view(&self) -> ChatMessageView {
        match self {
            ChatMessage::System(t) => ChatMessageView::System(t@),
            ChatMessage::User(t) => ChatMessageView::User(t@),
            ChatMessage::Assistant(t) => ChatMessageView::Assistant(t@),
            ChatMessage::Echo(v) => ChatMessageView::Echo(json_contents(*v)),
            ChatMessage::Tool { call_id, name, content } => ChatMessageView::Tool {
                call_id: call_id@,
                name: name@,
                content: content@,
            },
        }
    }
}

pub open spec fn message_views(messages: Seq<ChatMessage>) -> Seq<ChatMessageView> {
    Seq::new(messages.len(), |i: int| messages[i]@)
}

/// The role that a message has in a request. A message of the model keeps the one it came with.
pub open spec fn role_text(message: ChatMessageView) -> Option<Seq<char>> {
    match message {
        ChatMessageView::System(_) => Some("system"@),
        ChatMessageView::User(_) => Some("user"@),
        ChatMessageView::Assistant(_) => Some("assistant"@),
        ChatMessageView::Echo(_) => None,
        ChatMessageView::Tool { .. } => Some("tool"@),
    }
}

/// The role that a message has in a request.
pub fn role(message: &ChatMessage) -> (r: Option<String>)
    ensures
        text_of(r) == role_text(message@),
{
    match message {
        ChatMessage::System(_) => Some("system".to_owned()),
        ChatMessage::User(_) => Some("user".to_owned()),
        ChatMessage::Assistant(_) => Some("assistant".to_owned()),
        ChatMessage::Echo(_) => None,
        ChatMessage::Tool { .. } => Some("tool".to_owned()),
    }
}

/// The members of a message in a request, by key and text, in order. A message of the model is
/// sent as it came, and has none.
pub open spec fn members(message: ChatMessageView) -> Seq<(Seq<char>, Seq<char>)> {
    match message {
        ChatMessageView::System(text) => seq![("role"@, "system"@), ("content"@, text)],
        ChatMessageView::User(text) => seq![("role"@, "user"@), ("content"@, text)],
        ChatMessageView::Assistant(text) => seq![("role"@, "assistant"@), ("content"@, text)],
        ChatMessageView::Echo(_) => seq![],
        ChatMessageView::Tool { call_id, name, content } => seq![
            ("role"@, "tool"@),
            ("tool_call_id"@, call_id),
            ("name"@, name),
            ("content"@, content),
        ],
    }
}

/// The view of keys and texts.
pub open spec fn member_views(list: Seq<(String, String)>) -> Seq<(Seq<char>, Seq<char>)> {
    Seq::new(list.len(), |i: int| (list[i].0@, list[i].1@))
}

/// The members of a message in a request, by key and text.
pub fn message_members(message: &ChatMessage) -> (r: Vec<(String, String)>)
    ensures
        member_views(r@) == members(message@),
{
    let mut r: Vec<(String, String)> = Vec::new();
    if let Some(word) = role(message) {
        r.push(("role".to_owned(), word));
    }
    match message {
        ChatMessage::System(text) | ChatMessage::User(text) | ChatMessage::Assistant(text) => {
            r.push(("content".to_owned(), text.clone()));
        },
        ChatMessage::Echo(_) => {},
        ChatMessage::Tool { call_id, name, content } => {
            r.push(("tool_call_id".to_owned(), call_id.clone()));
            r.push(("name".to_owned(), name.clone()));
            r.push(("content".to_owned(), content.clone()));
        },
    }
    assert(member_views(r@) =~= members(message@));
    r
}

/// A request to the language model. Where tools are offered, the model chooses among them.
pub struct ChatRequest {
    pub model: String,
    pub messages: Vec<ChatMessage>,
    pub offer_tools: bool,
}

/// What the model is told about its task.
pub open spec fn system_prompt() -> Seq<char> {
    "You are the Kaspa Solo Enterprise AI. You are a highly professional assistant for crypto miners. You analyze intents, use tools for real-time data, and remember the recent conversation context."@
}

pub open spec fn chat_model() -> Seq<char> {
    "gpt-4o-mini"@
}

/// A remembered turn as a message.
pub open spec fn turn_message(turn: TurnView) -> ChatMessageView {
    match turn.role {
        Role::User => ChatMessageView::User(turn.content),
        Role::Assistant => ChatMessageView::Assistant(turn.content),
    }
}

/// The first request about a history: the task, and then the turns.
pub open spec fn opening_messages(history: Seq<TurnView>) -> Seq<ChatMessageView> {
    seq![ChatMessageView::System(system_prompt())] + Seq::new(
        history.len(),
        |i: int| turn_message(history[i]),
    )
}

/// What to do with a text of a user.
pub enum IntentPlan {
    /// Answer without the language model.
    Fallback,
    /// Ask the language model.
    Ask(ChatRequest),
}

/// Takes in a text of a user: remembers it, and makes the request to the language model with the
/// recent turns. Without a key nothing is remembered and nothing is asked.
pub fn process_conversational_intent(
    ctx: &mut AppContext,
    user_id: i64,
    user_text: &str,
    api_key: Option<&str>,
) -> (r: IntentPlan)
    ensures
        !has_key(api_key) ==> r is Fallback && *final(ctx) == *old(ctx),
        has_key(api_key) ==> ({
            let after = memory_after(
                memory_contents(old(ctx).memory),
                user_id,
                TurnView { role: Role::User, content: user_text@ },
            );
            &&& memory_contents(final(ctx).memory) == after
            &&& r matches IntentPlan::Ask(request)
            &&& request.model@ == chat_model()
            &&& request.offer_tools
            &&& message_views(request.messages@) == opening_messages(history_of(after, user_id))
        }),
        final(ctx).state == old(ctx).state,
        final(ctx).utxo_state == old(ctx).utxo_state,
        final(ctx).monitoring == old(ctx).monitoring,
        final(ctx).admin_id == old(ctx).admin_id,
{
    if !key_is_set(api_key) {
        return IntentPlan::Fallback;
    }
    let turn = Turn { role: Role::User, content: user_text.to_owned() };
    let history = remember(&mut ctx.memory, user_id, turn);
    let ghost turns = turn_views(history@);
    let mut messages: Vec<ChatMessage> = Vec::new();
    messages.push(
        ChatMessage::System(
            "You are the Kaspa Solo Enterprise AI. You are a highly professional assistant for crypto miners. You analyze intents, use tools for real-time data, and remember the recent conversation context.".to_owned(),
        ),
    );
    let mut i: usize = 0;
    assert(message_views(messages@) =~= opening_messages(turns.take(0)));
    while i < history.len()
        invariant
            i <= history.len(),
            turns == turn_views(history@),
            message_views(messages@) == opening_messages(turns.take(i as int)),
        decreases history.len() - i,
    {
        let ghost before = message_views(messages@);
        let content = history[i].content.clone();
        let message = match history[i].role {
            Role::User => ChatMessage::User(content),
            Role::Assistant => ChatMessage::Assistant(content),
        };
        assert(message@ == turn_message(turns[i as int]));
        messages.push(message);
        assert(message_views(messages@) =~= before.push(turn_message(turns[i as int])));
        assert(opening_messages(turns.take(i + 1)) =~= before.push(turn_message(turns[i as int])));
        i += 1;
    }
    assert(turns.take(i as int) =~= turns);
    IntentPlan::Ask(ChatRequest { model: "gpt-4o-mini".to_owned(), messages, offer_tools: true })
}

/// A tool that the language model may call. Some take a query.
pub struct ToolSpec {
    pub name: String,
    pub description: String,
    /// What the query means, for a tool that takes one.
    pub query: Option<String>,
}

/// The view of a tool.
pub struct ToolSpecView {
    pub name: Seq<char>,
    pub description: Seq<char>,
    pub query: Option<Seq<char>>,
}

impl View for ToolSpec {
    type V = ToolSpecView;

    open spec fn view(&self) -> ToolSpecView {
        ToolSpecView { name: self.name@, description: self.description@, query: text_of(self.query) }
    }
}

/// The tools that the language model is offered.
pub open spec fn offered_tools() -> Seq<ToolSpecView> {
    seq![
        ToolSpecView {
            name: "get_wallet_balance"@,
            description: "Checks the current Kaspa balance and UTXO count for the user's tracked wallets."@,
            query: None,
        },
        ToolSpecView {
            name: "get_network_stats"@,
            description: "Gets Kaspa node sync status, DAA score, and total circulating supply."@,
            query: None,
        },
        ToolSpecView {
            name: "search_kaspa_docs"@,
            description: "Searches the official Kaspa knowledge base for technical questions, algorithms, mining guides, or troubleshooting."@,
            query: Some("The technical question or topic to search for."@),
        },
        ToolSpecView {
            name: "search_live_internet"@,
            description: "Searches the global internet for real-time news, live updates, or information that is not available locally."@,
            query: Some("The precise search query to look up on the global internet."@),
        },
    ]
}

/// The tools that the language model is offered.
pub fn tool_specs() -> (r: Vec<ToolSpec>)
    ensures
        Seq::new(r@.len(), |i: int| r@[i]@) == offered_tools(),
{
    let mut r: Vec<ToolSpec> = Vec::new();
    r.push(
        ToolSpec {
            name: "get_wallet_balance".to_owned(),
            description: "Checks the current Kaspa balance and UTXO count for the user's tracked wallets.".to_owned(),
            query: None,
        },
    );
    r.push(
        ToolSpec {
            name: "get_network_stats".to_owned(),
            description: "Gets Kaspa node sync status, DAA score, and total circulating supply.".to_owned(),
            query: None,
        },
    );
    r.push(
        ToolSpec {
            name: "search_kaspa_docs".to_owned(),
            description: "Searches the official Kaspa knowledge base for technical questions, algorithms, mining guides, or troubleshooting.".to_owned(),
            query: Some("The technical question or topic to search for.".to_owned()),
        },
    );
    r.push(
        ToolSpec {
            name: "search_live_internet".to_owned(),
            description: "Searches the global internet for real-time news, live updates, or information that is not available locally.".to_owned(),
            query: Some("The precise search query to look up on the global internet.".to_owned()),
        },
    );
    assert(Seq::new(r@.len(), |i: int| r@[i]@) =~= offered_tools());
    r
}

/// A call of a tool, as the language model asks for it.
pub struct ToolCall {
    pub id: String,
    pub name: String,
    /// The arguments, as the text of a JSON object.
    pub arguments: String,
}

/// The view of a call.
pub struct ToolCallView {
    pub id: Seq<char>,
    pub name: Seq<char>,
    pub arguments: Seq<char>,
}

impl View for ToolCall {
    type V = ToolCallView;

    open spec fn view(&self) -> ToolCallView {
        ToolCallView { id: self.id@, name: self.name@, arguments: self.arguments@ }
    }
}

pub open spec fn call_views(calls: Seq<ToolCall>) -> Seq<ToolCallView> {
    Seq::new(calls.len(), |i: int| calls[i]@)
}

/// The tools that a reply calls.
pub enum ToolCalls {
    /// The reply does not speak of tools.
    Absent,
    /// The reply speaks of tools, but not with a list of calls.
    Malformed,
    Calls(Vec<ToolCall>),
}

/// The view of the calls.
pub enum ToolCallsView {
    Absent,
    Malformed,
    Calls(Seq<ToolCallView>),
}

impl View for ToolCalls {
    type V = ToolCallsView;

    open spec fn view(&self) -> ToolCallsView {
        match self {
            ToolCalls::Absent => ToolCallsView::Absent,
            ToolCalls::Malformed => ToolCallsView::Malformed,
            ToolCalls::Calls(c) => ToolCallsView::Calls(call_views(c@)),
        }
    }
}

/// A reply of the language model.
pub struct ChatReply {
    /// The message as it came, if there is one.
    pub message: Option<serde_json::Value>,
    pub tool_calls: ToolCalls,
    /// The text of the message, if it has one.
    pub content: Option<String>,
}

/// The view of a reply.
pub struct ChatReplyView {
    pub message: JsonNodes,
    pub tool_calls: ToolCallsView,
    pub content: Option<Seq<char>>,
}

impl View for ChatReply {
    type V = ChatReplyView;

    open spec fn view(&self) -> ChatReplyView {
        ChatReplyView {
            message: match self.message {
                Some(v) => json_contents(v),
                None => nothing(),
            },
            tool_calls: self.tool_calls@,
            content: text_of(self.content),
        }
    }
}

/// Where the message stands in a reply.
pub open spec fn message_path() -> Seq<JsonStep> {
    seq![JsonStep::Key("choices"@), JsonStep::Item(0), JsonStep::Key("message"@)]
}

/// Where the calls stand in a reply.
pub open spec fn calls_path() -> Seq<JsonStep> {
    message_path().push(JsonStep::Key("tool_calls"@))
}

/// Where the text stands in a reply.
pub open spec fn content_path() -> Seq<JsonStep> {
    message_path().push(JsonStep::Key("content"@))
}

/// One call of a reply. What is missing is read as empty.
pub open spec fn call_at(doc: JsonNodes, i: int) -> ToolCallView {
    let call = calls_path().push(JsonStep::Item(i));
    let function = call.push(JsonStep::Key("function"@));
    ToolCallView {
        id: or_empty(text_at(doc, call.push(JsonStep::Key("id"@)))),
        name: or_empty(text_at(doc, function.push(JsonStep::Key("name"@)))),
        arguments: match text_at(doc, function.push(JsonStep::Key("arguments"@))) {
            Some(t) => t,
            None => "{}"@,
        },
    }
}

/// What a reply of the language model says.
pub open spec fn chat_reply(doc: JsonNodes) -> ChatReplyView {
    ChatReplyView {
        message: below(doc, message_path()),
        tool_calls: if !doc.contains_key(calls_path()) {
            ToolCallsView::Absent
        } else {
            match list_at(doc, calls_path()) {
                None => ToolCallsView::Malformed,
                Some(n) => ToolCallsView::Calls(Seq::new(n, |i: int| call_at(doc, i))),
            }
        },
        content: text_at(doc, content_path()),
    }
}

fn read_call(v: &serde_json::Value, i: usize) -> (r: ToolCall)
    ensures
        r@ == call_at(json_contents(*v), i as int),
{
    let id_steps = vec![
        Step::Key("choices"),
        Step::Item(0),
        Step::Key("message"),
        Step::Key("tool_calls"),
        Step::Item(i),
        Step::Key("id"),
    ];
    let name_steps = vec![
        Step::Key("choices"),
        Step::Item(0),
        Step::Key("message"),
        Step::Key("tool_calls"),
        Step::Item(i),
        Step::Key("function"),
        Step::Key("name"),
    ];
    let argument_steps = vec![
        Step::Key("choices"),
        Step::Item(0),
        Step::Key("message"),
        Step::Key("tool_calls"),
        Step::Item(i),
        Step::Key("function"),
        Step::Key("arguments"),
    ];
    proof {
        let call = calls_path().push(JsonStep::Item(i as int));
        let function = call.push(JsonStep::Key("function"@));
        assert(path_of(id_steps@) =~= call.push(JsonStep::Key("id"@)));
        assert(path_of(name_steps@) =~= function.push(JsonStep::Key("name"@)));
        assert(path_of(argument_steps@) =~= function.push(JsonStep::Key("arguments"@)));
    }
    ToolCall {
        id: unwrap_or_empty(text_under(v, &id_steps)),
        name: unwrap_or_empty(text_under(v, &name_steps)),
        arguments: match text_under(v, &argument_steps) {
            Some(t) => t,
            None => "{}".to_owned(),
        },
    }
}

/// Reads a reply of the language model: nothing, if it is not JSON.
pub fn read_chat_reply(body: &[u8]) -> (r: Option<ChatReply>)
    ensures
        r is Some <==> json_document(body@) is Some,
        r matches Some(reply) ==> reply@ == chat_reply(json_document(body@)->0),
{
    let v = match parse(body) {
        Some(v) => v,
        None => {
            return None;
        },
    };
    let ghost doc = json_contents(v);
    let message_steps = vec![Step::Key("choices"), Step::Item(0), Step::Key("message")];
    let calls_steps = vec![
        Step::Key("choices"),
        Step::Item(0),
        Step::Key("message"),
        Step::Key("tool_calls"),
    ];
    let content_steps = vec![
        Step::Key("choices"),
        Step::Item(0),
        Step::Key("message"),
        Step::Key("content"),
    ];
    proof {
        assert(path_of(message_steps@) =~= message_path());
        assert(path_of(calls_steps@) =~= calls_path());
        assert(path_of(content_steps@) =~= content_path());
    }
    let tool_calls = match reach(&v, &calls_steps) {
        None => ToolCalls::Absent,
        Some(_) => match list_under(&v, &calls_steps) {
            None => ToolCalls::Malformed,
            Some(n) => {
                let mut calls: Vec<ToolCall> = Vec::new();
                let mut i: usize = 0;
                assert(call_views(calls@) =~= Seq::new(0, |k: int| call_at(doc, k)));
                while i < n
                    invariant
                        i <= n,
                        doc == json_contents(v),
                        call_views(calls@) == Seq::new(i as nat, |k: int| call_at(doc, k)),
                    decreases n - i,
                {
                    let ghost before = call_views(calls@);
                    calls.push(read_call(&v, i));
                    assert(call_views(calls@) =~= before.push(call_at(doc, i as int)));
                    assert(Seq::new((i + 1) as nat, |k: int| call_at(doc, k)) =~= before.push(
                        call_at(doc, i as int),
                    ));
                    i += 1;
                }
                ToolCalls::Calls(calls)
            },
        },
    };
    Some(
        ChatReply {
            message: copy_under(&v, &message_steps),
            tool_calls,
            content: text_under(&v, &content_steps),
        },
    )
}

/// What follows from a reply of the language model.
pub enum ReplyPlan {
    /// The reply is not JSON: the conversation fails.
    Unreadable,
    /// The reply speaks of tools, but not with a list of calls: the conversation fails.
    Malformed,
    /// The reply is the answer, if it has a text.
    Answer(Option<String>),
    /// The tools have to be carried out, and the model is asked again.
    UseTools(ToolRound),
}

/// The tools that a reply calls, and what is needed to go on after them.
pub struct ToolRound {
    /// The message that calls for the tools, as it came.
    pub message: serde_json::Value,
    pub calls: Vec<ToolCall>,
    /// The text of the message, if it has one.
    pub content: Option<String>,
}

/// Whether a plan is the one that follows from a reply.
pub open spec fn plan_fits(plan: ReplyPlan, reply: ChatReplyView) -> bool {
    match reply.tool_calls {
        ToolCallsView::Absent => plan matches ReplyPlan::Answer(text) && text_of(text)
            == reply.content,
        ToolCallsView::Malformed => plan is Malformed,
        ToolCallsView::Calls(calls) => plan matches ReplyPlan::UseTools(round) && json_contents(
            round.message,
        ) == reply.message && call_views(round.calls@) == calls && text_of(round.content)
            == reply.content,
    }
}

/// Decides what follows from a reply of the language model.
pub fn plan_reply(body: &[u8]) -> (r: ReplyPlan)
    ensures
        match json_document(body@) {
            None => r is Unreadable,
            Some(doc) => plan_fits(r, chat_reply(doc)),
        },
{
    let reply = match read_chat_reply(body) {
        Some(reply) => reply,
        None => {
            return ReplyPlan::Unreadable;
        },
    };
    let ghost doc = json_document(body@)->0;
    match reply.tool_calls {
        ToolCalls::Absent => ReplyPlan::Answer(reply.content),
        ToolCalls::Malformed => ReplyPlan::Malformed,
        ToolCalls::Calls(calls) => match reply.message {
            Some(message) => ReplyPlan::UseTools(
                ToolRound { message, calls, content: reply.content },
            ),
            None => {
                proof {
                    // The calls stand inside the message, so there is one.
                    let step = seq![JsonStep::Key("tool_calls"@)];
                    assert(message_path() + step =~= calls_path());
                    assert(below(doc, message_path()).contains_key(step));
                    assert(false);
                }
                ReplyPlan::Malformed
            },
        },
    }
}

/// Reads the text of the reply to a follow-up. The outer option is empty if the reply is not
/// JSON, the inner one if it has no text.
pub fn read_final_text(body: &[u8]) -> (r: Option<Option<String>>)
    ensures
        r is Some <==> json_document(body@) is Some,
        r matches Some(text) ==> text_of(text) == text_at(json_document(body@)->0, content_path()),
{
    match parse(body) {
        None => None,
        Some(v) => {
            let content_steps = vec![
                Step::Key("choices"),
                Step::Item(0),
                Step::Key("message"),
                Step::Key("content"),
            ];
            assert(path_of(content_steps@) =~= content_path());
            Some(text_under(&v, &content_steps))
        },
    }
}

/// What a call of a tool comes to.
pub enum ToolAction {
    WalletBalance,
    NetworkStats,
    SearchDocs(String),
    SearchInternet(String),
    /// There is no such tool; this is reported.
    Unknown(String),
}

/// The view of an action.
pub enum ToolActionView {
    WalletBalance,
    NetworkStats,
    SearchDocs(Seq<char>),
    SearchInternet(Seq<char>),
    Unknown(Seq<char>),
}

impl View for ToolAction {
    type V = ToolActionView;

    open spec fn view(&self) -> ToolActionView {
        match self {
            ToolAction::WalletBalance => ToolActionView::WalletBalance,
            ToolAction::NetworkStats => ToolActionView::NetworkStats,
            ToolAction::SearchDocs(q) => ToolActionView::SearchDocs(q@),
            ToolAction::SearchInternet(q) => ToolActionView::SearchInternet(q@),
            ToolAction::Unknown(t) => ToolActionView::Unknown(t@),
        }
    }
}

/// The query among the arguments of a call: empty, if there is none.
pub open spec fn query_of(doc: Option<JsonNodes>) -> Seq<char> {
    match doc {
        Some(d) => or_empty(text_at(d, seq![JsonStep::Key("query"@)])),
        None => Seq::empty(),
    }
}

/// Reads the query from the arguments of a call.
pub fn read_query(arguments: &str) -> (r: String)
    ensures
        r@ == query_of(json_document(encode_utf8(arguments@))),
{
    match parse(arguments.as_bytes()) {
        Some(v) => {
            let steps = vec![Step::Key("query")];
            assert(path_of(steps@) =~= seq![JsonStep::Key("query"@)]);
            unwrap_or_empty(text_under(&v, &steps))
        },
        None => String::new(),
    }
}

/// What a call comes to, by the name of the tool and the query.
pub open spec fn tool_action(name: Seq<char>, query: Seq<char>) -> ToolActionView {
    if name == "get_wallet_balance"@ {
        ToolActionView::WalletBalance
    } else if name == "get_network_stats"@ {
        ToolActionView::NetworkStats
    } else if name == "search_kaspa_docs"@ {
        ToolActionView::SearchDocs(query)
    } else if name == "search_live_internet"@ {
        ToolActionView::SearchInternet(query)
    } else {
        ToolActionView::Unknown("Unknown function"@)
    }
}

/// What a call comes to, by the name of the tool and the query.
pub fn choose_action(name: &str, query: String) -> (r: ToolAction)
    ensures
        r@ == tool_action(name@, query@),
{
    if same_text(name, "get_wallet_balance") {
        return ToolAction::WalletBalance;
    }
    if same_text(name, "get_network_stats") {
        return ToolAction::NetworkStats;
    }
    if same_text(name, "search_kaspa_docs") {
        return ToolAction::SearchDocs(query);
    }
    if same_text(name, "search_live_internet") {
        return ToolAction::SearchInternet(query);
    }
    ToolAction::Unknown("Unknown function".to_owned())
}

/// What a call of a tool comes to.
pub fn dispatch_tool(call: &ToolCall) -> (r: ToolAction)
    ensures
        r@ == tool_action(call.name@, query_of(json_document(encode_utf8(call.arguments@)))),
{
    let query = read_query(call.arguments.as_str());
    choose_action(call.name.as_str(), query)
}

/// What the tools reported, as messages.
pub open spec fn tool_messages(calls: Seq<ToolCallView>, results: Seq<Seq<char>>) -> Seq<ChatMessageView> {
    Seq::new(
        calls.len(),
        |i: int|
            ChatMessageView::Tool {
                call_id: calls[i].id,
                name: calls[i].name,
                content: results[i],
            },
    )
}

/// The call, the name and the content of a message, if it is one of a tool.
pub open spec fn tool_message_at(messages: Seq<ChatMessage>, i: int) -> Option<
    (Seq<char>, Seq<char>, Seq<char>),
> {
    match messages[i] {
        ChatMessage::Tool { call_id, name, content } => Some((call_id@, name@, content@)),
        _ => None,
    }
}

/// The request that follows the tools: all that was said, the message that called for the tools,
/// and what each of them reported. No tools are offered again.
pub fn follow_up(request: ChatRequest, round: ToolRound, results: Vec<String>) -> (r: ChatRequest)
    requires
        round.calls@.len() == results@.len(),
    ensures
        r.model@ == chat_model(),
        !r.offer_tools,
        message_views(r.messages@) == message_views(request.messages@).push(
            ChatMessageView::Echo(json_contents(round.message)),
        ) + tool_messages(call_views(round.calls@), texts(results@)),
        r.messages@.len() == request.messages@.len() + 1 + round.calls@.len(),
        forall|i: int|
            0 <= i < request.messages@.len() ==> (#[trigger] r.messages@[i])@ == request.messages@[i]@,
        r.messages@[request.messages@.len() as int]@ == ChatMessageView::Echo(
            json_contents(round.message),
        ),
        forall|k: int|
            0 <= k < round.calls@.len() ==> tool_message_at(
                r.messages@,
                request.messages@.len() + 1 + k,
            ) == Some(
                (
                    (#[trigger] round.calls@[k]).id@,
                    round.calls@[k].name@,
                    results@[k]@,
                ),
            ),
{
    let message = round.message;
    let calls = round.calls;
    let ghost said = message_views(request.messages@).push(
        ChatMessageView::Echo(json_contents(message)),
    );
    let ghost reports = tool_messages(call_views(calls@), texts(results@));
    let ghost message_count = request.messages@.len();
    let mut messages = request.messages;
    messages.push(ChatMessage::Echo(message));
    let mut i: usize = 0;
    assert(message_views(messages@) =~= said + reports.take(0));
    while i < calls.len()
        invariant
            i <= calls@.len() == results@.len(),
            reports == tool_messages(call_views(calls@), texts(results@)),
            message_views(messages@) == said + reports.take(i as int),
        decreases calls.len() - i,
    {
        let ghost before = message_views(messages@);
        let report = ChatMessage::Tool {
            call_id: calls[i].id.clone(),
            name: calls[i].name.clone(),
            content: results[i].clone(),
        };
        assert(report@ == reports[i as int]);
        messages.push(report);
        assert(message_views(messages@) =~= before.push(reports[i as int]));
        assert(said + reports.take(i + 1) =~= before.push(reports[i as int]));
        i += 1;
    }
    assert(reports.take(i as int) =~= reports);
    proof {
        let n = message_count;
        assert forall|i: int| 0 <= i < messages@.len() implies (#[trigger] messages@[i])@ == (said
            + reports)[i] by {
            assert(message_views(messages@)[i] == messages@[i]@);
        }
        assert forall|k: int| 0 <= k < calls@.len() implies tool_message_at(messages@, n + 1 + k)
            == Some(((#[trigger] calls@[k]).id@, calls@[k].name@, results@[k]@)) by {
            assert(messages@[n + 1 + k]@ == reports[k]);
        }
    }
    ChatRequest { model: "gpt-4o-mini".to_owned(), messages, offer_tools: false }
}

/// The answer to the user: the text of the follow-up, or else the text of the first reply.
pub open spec fn answer_text(final_text: Option<Seq<char>>, content: Option<Seq<char>>) -> Option<Seq<char>> {
    match final_text {
        Some(t) => Some(t),
        None => content,
    }
}

/// Ends a conversation step: chooses the answer and remembers it. Without an answer nothing is
/// remembered.
pub fn conclude_intent(
    ctx: &mut AppContext,
    user_id: i64,
    final_text: Option<String>,
    content: Option<String>,
) -> (answer: Option<String>)
    ensures
        text_of(answer) == answer_text(text_of(final_text), text_of(content)),
        memory_contents(final(ctx).memory) == (match answer_text(text_of(final_text), text_of(content)) {
            Some(t) => memory_after(
                memory_contents(old(ctx).memory),
                user_id,
                TurnView { role: Role::Assistant, content: t },
            ),
            None => memory_contents(old(ctx).memory),
        }),
        final(ctx).state == old(ctx).state,
        final(ctx).utxo_state == old(ctx).utxo_state,
        final(ctx).monitoring == old(ctx).monitoring,
        final(ctx).admin_id == old(ctx).admin_id,
{
    let answer = match final_text {
        Some(t) => Some(t),
        None => content,
    };
    if let Some(text) = &answer {
        let turn = Turn { role: Role::Assistant, content: text.clone() };
        remember(&mut ctx.memory, user_id, turn);
    }
    answer
}

/// A request begins with the task and ends with the text of the user, and what stands between
/// them stays within the limit of the memory.
pub proof fn requests_hold_task_and_question(
    memory: Map<i64, Seq<TurnView>>,
    user_id: i64,
    text: Seq<char>,
)
    requires
        history_of(memory, user_id).len() <= MEMORY_LIMIT,
    ensures
        ({
            let after = memory_after(
                memory,
                user_id,
                TurnView { role: Role::User, content: text },
            );
            let messages = opening_messages(history_of(after, user_id));
            &&& messages.len() <= MEMORY_LIMIT + 1
            &&& messages[0] == ChatMessageView::System(system_prompt())
            &&& messages.last() == ChatMessageView::User(text)
        }),
{
}

/// Every tool that is offered is one that can be carried out.
pub proof fn offered_tools_are_known(i: int, query: Seq<char>)
    requires
        0 <= i < offered_tools().len(),
    ensures
        !(tool_action(offered_tools()[i].name, query) is Unknown),
{
    assert(offered_tools().len() == 4);
}

/// A tool takes a query exactly if the model is told of one.
pub proof fn queries_reach_their_tools(i: int, query: Seq<char>)
    requires
        0 <= i < offered_tools().len(),
    ensures
        offered_tools()[i].query is Some <==> (tool_action(offered_tools()[i].name, query)
            == ToolActionView::SearchDocs(query) || tool_action(offered_tools()[i].name, query)
            == ToolActionView::SearchInternet(query)),
{
    reveal_strlit("get_wallet_balance");
    reveal_strlit("get_network_stats");
    reveal_strlit("search_kaspa_docs");
    reveal_strlit("search_live_internet");
    assert("get_wallet_balance"@.len() == 18);
    assert("get_network_stats"@.len() == 17);
    assert("search_kaspa_docs"@.len() == 17);
    assert("search_live_internet"@.len() == 20);
    assert("get_network_stats"@[0] == 'g');
    assert("search_kaspa_docs"@[0] == 's');
}

// ---- What the tools report

/// A list of the wallets of a chat that are addresses, each of them once, in any order.
pub open spec fn lists_reachable(list: Seq<Seq<char>>, book: Book, chat_id: i64) -> bool {
    &&& list.no_duplicates()
    &&& forall|w: Seq<char>| #[trigger]
        list.contains(w) <==> trackers(book, w).contains(chat_id) && is_address(w)
}

/// The wallets whose balance a chat can ask for, in no particular order.
pub fn balance_wallets(state: &SharedState, chat_id: i64) -> (list: Vec<String>)
    ensures
        lists_reachable(texts(list@), wallet_contents(*state), chat_id),
{
    let mine = tracked_wallets(state, chat_id);
    let list = reachable_wallets(&mine);
    proof {
        let all = texts(mine@);
        let pred = |w: Seq<char>| is_address(w);
        filter_keeps_order(all, pred);
        assert(texts(list@) == all.filter(pred));
    }
    list
}

/// What a filter keeps is what passes it, and nothing twice.
proof fn filter_keeps_order(s: Seq<Seq<char>>, pred: spec_fn(Seq<char>) -> bool)
    requires
        s.no_duplicates(),
    ensures
        s.filter(pred).no_duplicates(),
        forall|x: Seq<char>| #[trigger] s.filter(pred).contains(x) <==> s.contains(x) && pred(x),
    decreases s.len(),
{
    reveal(Seq::filter);
    if s.len() > 0 {
        let front = s.drop_last();
        let kept = front.filter(pred);
        filter_keeps_order(front, pred);
        assert forall|x: Seq<char>| s.contains(x) <==> front.contains(x) || x == s.last() by {
            if front.contains(x) {
                assert(s[front.index_of(x)] == x);
            }
            if s.contains(x) && x != s.last() {
                assert(front[s.index_of(x)] == x);
            }
            assert(s[s.len() - 1] == s.last());
        }
        assert(!front.contains(s.last()));
        if pred(s.last()) {
            let all = kept.push(s.last());
            assert(!kept.contains(s.last()));
            assert forall|i: int, j: int|
                0 <= i < all.len() && 0 <= j < all.len() && i != j implies all[i] != all[j] by {
                if i < kept.len() {
                    assert(kept.contains(kept[i]));
                }
                if j < kept.len() {
                    assert(kept.contains(kept[j]));
                }
            }
            assert forall|x: Seq<char>| all.contains(x) <==> kept.contains(x) || x == s.last() by {
                if kept.contains(x) {
                    assert(all[kept.index_of(x)] == x);
                }
                assert(all[kept.len() as int] == s.last());
            }
        }
    }
}

/// The balance of one wallet, ready to print, and how many outputs it has.
pub struct BalanceLine {
    pub short: String,
    pub amount: String,
    pub utxos: usize,
}

/// The balance of a wallet with these outputs.
pub fn tool_balance_line(short: String, amount: String, utxos: &Vec<Utxo>) -> (r: BalanceLine)
    ensures
        r.short@ == short@,
        r.amount@ == amount@,
        r.utxos == utxos@.len(),
{
    BalanceLine { short, amount, utxos: utxos.len() }
}

/// Two sentences for each wallet: its balance, and the number of its outputs.
pub open spec fn balance_details(lines: Seq<BalanceLine>) -> Seq<char>
    decreases lines.len(),
{
    if lines.len() == 0 {
        Seq::empty()
    } else {
        let line = lines.last();
        balance_details(lines.drop_last())
            + "Wallet "@
            + line.short@
            + ": "@
            + line.amount@
            + " KAS. "@
            + "UTXOs: "@
            + decimal(line.utxos as nat)
            + ". "@
    }
}

/// What the balance tool reports. There is no total if it comes to nothing.
pub open spec fn balance_report(lines: Seq<BalanceLine>, total: Option<Seq<char>>) -> Seq<char> {
    match total {
        None => "User has 0 balances or no wallets tracked."@,
        Some(t) => "Total Balance: "@
            + t
            + " KAS. Details: "@
            + balance_details(lines),
    }
}

/// Writes what the balance tool reports.
pub fn execute_get_balance(lines: &Vec<BalanceLine>, total: Option<&str>) -> (r: String)
    ensures
        r@ == balance_report(
            lines@,
            match total {
                Some(t) => Some(t@),
                None => None,
            },
        ),
{
    match total {
        None => "User has 0 balances or no wallets tracked.".to_owned(),
        Some(t) => {
            let mut details = String::new();
            let mut i: usize = 0;
            while i < lines.len()
                invariant
                    i <= lines.len(),
                    details@ == balance_details(lines@.take(i as int)),
                decreases lines.len() - i,
            {
                let line = &lines[i];
                assert(lines@.take(i + 1).drop_last() =~= lines@.take(i as int));
                details.append("Wallet ");
                details.append(line.short.as_str());
                details.append(": ");
                details.append(line.amount.as_str());
                details.append(" KAS. ");
                details.append("UTXOs: ");
                push_decimal(&mut details, line.utxos as u128);
                details.append(". ");
                i += 1;
            }
            assert(lines@.take(i as int) =~= lines@);
            let mut out = "Total Balance: ".to_owned();
            out.append(t);
            out.append(" KAS. Details: ");
            out.append(details.as_str());
            out
        },
    }
}

pub open spec fn sync_phrase(synced: bool) -> Seq<char> {
    if synced {
        "100% Synced"@
    } else {
        "Syncing"@
    }
}

fn sync_word(synced: bool) -> (r: &'static str)
    ensures
        r@ == sync_phrase(synced),
{
    if synced {
        "100% Synced"
    } else {
        "Syncing"
    }
}

/// What the network tool reports: a sentence for each question that the node answered.
pub open spec fn network_report(synced: Option<bool>, daa_score: Option<u64>, circulating: Option<Seq<char>>) -> Seq<char> {
    let t1 = match synced {
        Some(b) => "Sync Status: "@
            + sync_phrase(b)
            + ". "@,
        None => Seq::empty(),
    };
    let t2 = match daa_score {
        Some(n) => t1
            + "DAA Score: "@
            + decimal(n as nat)
            + ". "@,
        None => t1,
    };
    match circulating {
        Some(t) => t2
            + "Circulating Supply: "@
            + t
            + " KAS. "@,
        None => t2,
    }
}

/// Writes what the network tool reports.
pub fn execute_get_network(synced: Option<bool>, daa_score: Option<u64>, circulating: Option<&str>) -> (r: String)
    ensures
        r@ == network_report(
            synced,
            daa_score,
            match circulating {
                Some(t) => Some(t@),
                None => None,
            },
        ),
{
    let mut out = String::new();
    if let Some(b) = synced {
        out = "Sync Status: ".to_owned();
        out.append(sync_word(b));
        out.append(". ");
    }
    if let Some(n) = daa_score {
        out.append("DAA Score: ");
        push_decimal(&mut out, n as u128);
        out.append(". ");
    }
    if let Some(t) = circulating {
        out.append("Circulating Supply: ");
        out.append(t);
        out.append(" KAS. ");
    }
    out
}

/// Whether a byte stands for itself in an address: a letter, a digit, or one of `-`, `.`, `_`
/// and `~`.
pub open spec fn unreserved(b: u8) -> bool {
    ||| '0' as int <= b <= '9' as int
    ||| 'A' as int <= b <= 'Z' as int
    ||| 'a' as int <= b <= 'z' as int
    ||| b == '-' as int
    ||| b == '.' as int
    ||| b == '_' as int
    ||| b == '~' as int
}

/// The upper-case hexadecimal digit that stands for `n`.
pub open spec fn upper_hex_digit(n: int) -> char {
    if n < 10 {
        ('0' as int + n) as char
    } else {
        ('A' as int + n - 10) as char
    }
}

/// The bytes of a text as part of an address: a byte that cannot stand for itself is written as
/// a percent sign and two hexadecimal digits.
pub open spec fn percent_encoded(bytes: Seq<u8>) -> Seq<char>
    decreases bytes.len(),
{
    if bytes.len() == 0 {
        Seq::empty()
    } else {
        let b = bytes.last();
        percent_encoded(bytes.drop_last()) + if unreserved(b) {
            seq![b as char]
        } else {
            seq!['%', upper_hex_digit(b as int / 16), upper_hex_digit(b as int % 16)]
        }
    }
}

/// `urlencoding::encode` writes every byte of the text, as UTF-8, that is not a letter, a digit,
/// `-`, `.`, `_` or `~` as a percent sign and two upper-case hexadecimal digits.
#[verifier::external_body]
fn encode_for_url(text: &str) -> (r: String)
    ensures
        r@ == percent_encoded(encode_utf8(text@)),
{
    urlencoding::encode(text).into_owned()
}

/// The address that answers a search.
pub open spec fn search_address(query: Seq<char>) -> Seq<char> {
    "https://en.wikipedia.org/w/api.php?action=query&list=search&srsearch="@ + percent_encoded(
        encode_utf8(query),
    ) + "&utf8=&format=json"@
}

/// The address that answers a search.
pub fn search_url(query: &str) -> (r: String)
    ensures
        r@ == search_address(query@),
{
    let encoded = encode_for_url(query);
    let mut out =
        "https://en.wikipedia.org/w/api.php?action=query&list=search&srsearch=".to_owned();
    out.append(encoded.as_str());
    out.append("&utf8=&format=json");
    out
}

/// Whatever is searched for stays within its own parameter of the address: its characters stand
/// for themselves or begin an escape, so none of them ends the parameter.
pub proof fn searches_keep_to_their_parameter(bytes: Seq<u8>, i: int)
    requires
        0 <= i < percent_encoded(bytes).len(),
    ensures
        percent_encoded(bytes)[i] == '%' || (0 <= percent_encoded(bytes)[i] as int <= 255
            && unreserved(percent_encoded(bytes)[i] as u8)),
    decreases bytes.len(),
{
    let front = percent_encoded(bytes.drop_last());
    if i < front.len() {
        searches_keep_to_their_parameter(bytes.drop_last(), i);
    } else {
        let b = bytes.last() as int;
        assert(0 <= b / 16 < 16 && 0 <= b % 16 < 16);
    }
}

/// A page that a search found.
pub struct SearchPage {
    pub title: String,
    pub snippet: String,
}

/// The title and the snippet of each page.
pub open spec fn page_views(pages: Seq<SearchPage>) -> Seq<(Seq<char>, Seq<char>)> {
    Seq::new(pages.len(), |i: int| (pages[i].title@, pages[i].snippet@))
}

/// Where the pages stand in a reply.
pub open spec fn pages_path() -> Seq<JsonStep> {
    seq![JsonStep::Key("query"@), JsonStep::Key("search"@)]
}

/// The title and the snippet of one page of a reply. What is missing is read as empty.
pub open spec fn page_at(doc: JsonNodes, i: int) -> (Seq<char>, Seq<char>) {
    let page = pages_path().push(JsonStep::Item(i));
    (
        or_empty(text_at(doc, page.push(JsonStep::Key("title"@)))),
        or_empty(text_at(doc, page.push(JsonStep::Key("snippet"@)))),
    )
}

/// So many pages are reported at most.
pub const SEARCH_LIMIT: usize = 3;

/// The pages that a reply lists, as far as they are reported; nothing if it has no list.
pub open spec fn found_pages(doc: Option<JsonNodes>) -> Option<Seq<(Seq<char>, Seq<char>)>> {
    match doc {
        None => None,
        Some(d) => match list_at(d, pages_path()) {
            None => None,
            Some(n) => Some(
                Seq::new(
                    if n < SEARCH_LIMIT {
                        n
                    } else {
                        SEARCH_LIMIT as nat
                    },
                    |i: int| page_at(d, i),
                ),
            ),
        },
    }
}

fn read_page(v: &serde_json::Value, i: usize) -> (r: SearchPage)
    ensures
        (r.title@, r.snippet@) == page_at(json_contents(*v), i as int),
{
    let title_steps = vec![
        Step::Key("query"),
        Step::Key("search"),
        Step::Item(i),
        Step::Key("title"),
    ];
    let snippet_steps = vec![
        Step::Key("query"),
        Step::Key("search"),
        Step::Item(i),
        Step::Key("snippet"),
    ];
    proof {
        let page = pages_path().push(JsonStep::Item(i as int));
        assert(path_of(title_steps@) =~= page.push(JsonStep::Key("title"@)));
        assert(path_of(snippet_steps@) =~= page.push(JsonStep::Key("snippet"@)));
    }
    SearchPage {
        title: unwrap_or_empty(text_under(v, &title_steps)),
        snippet: unwrap_or_empty(text_under(v, &snippet_steps)),
    }
}

/// Reads the pages from the reply to a search.
pub fn read_pages(body: &[u8]) -> (r: Option<Vec<SearchPage>>)
    ensures
        (match r {
            Some(pages) => Some(page_views(pages@)),
            None => None,
        }) == found_pages(json_document(body@)),
{
    let v = match parse(body) {
        Some(v) => v,
        None => {
            return None;
        },
    };
    let ghost doc = json_contents(v);
    let steps = vec![Step::Key("query"), Step::Key("search")];
    assert(path_of(steps@) =~= pages_path());
    let n: usize = match list_under(&v, &steps) {
        Some(n) => n,
        None => {
            return None;
        },
    };
    let limit: usize = if n < SEARCH_LIMIT {
        n
    } else {
        SEARCH_LIMIT
    };
    let mut pages: Vec<SearchPage> = Vec::new();
    let mut i: usize = 0;
    assert(page_views(pages@) =~= Seq::new(0, |k: int| page_at(doc, k)));
    while i < limit
        invariant
            i <= limit,
            doc == json_contents(v),
            page_views(pages@) == Seq::new(i as nat, |k: int| page_at(doc, k)),
        decreases limit - i,
    {
        let ghost before = page_views(pages@);
        pages.push(read_page(&v, i));
        assert(page_views(pages@) =~= before.push(page_at(doc, i as int)));
        assert(Seq::new((i + 1) as nat, |k: int| page_at(doc, k)) =~= before.push(
            page_at(doc, i as int),
        ));
        i += 1;
    }
    Some(pages)
}

/// What came of a search.
pub enum SearchReply {
    /// There was no answer.
    Unreachable,
    /// There was an answer, but no list of pages in it.
    Unreadable,
    /// These pages were found. Their snippets are ready to print.
    Pages(Vec<SearchPage>),
}

/// What was found, page by page.
pub open spec fn findings(pages: Seq<SearchPage>) -> Seq<char>
    decreases pages.len(),
{
    if pages.len() == 0 {
        Seq::empty()
    } else {
        let page = pages.last();
        findings(pages.drop_last())
            + "Source: "@
            + page.title@
            + "\\nContent: "@
            + page.snippet@
            + "\\n\\n"@
    }
}

/// What the search tool reports.
pub open spec fn search_report(reply: SearchReply) -> Seq<char> {
    match reply {
        SearchReply::Unreachable => "Error: Global internet connection failed."@,
        SearchReply::Unreadable => "Error: Could not parse global server response."@,
        SearchReply::Pages(pages) => if pages@.len() == 0 {
            "Global search completed but found no highly relevant new data."@
        } else {
            "Global Web Search Results:\\n"@ + findings(pages@)
        },
    }
}

/// Writes what the search tool reports.
pub fn execute_global_search(reply: &SearchReply) -> (r: String)
    ensures
        r@ == search_report(*reply),
{
    match reply {
        SearchReply::Unreachable => "Error: Global internet connection failed.".to_owned(),
        SearchReply::Unreadable => "Error: Could not parse global server response.".to_owned(),
        SearchReply::Pages(pages) => {
            if pages.len() == 0 {
                return "Global search completed but found no highly relevant new data.".to_owned();
            }
            let mut found = String::new();
            let mut i: usize = 0;
            while i < pages.len()
                invariant
                    i <= pages.len(),
                    found@ == findings(pages@.take(i as int)),
                decreases pages.len() - i,
            {
                let page = &pages[i];
                assert(pages@.take(i + 1).drop_last() =~= pages@.take(i as int));
                found.append("Source: ");
                found.append(page.title.as_str());
                found.append("\\nContent: ");
                found.append(page.snippet.as_str());
                found.append("\\n\\n");
                i += 1;
            }
            assert(pages@.take(i as int) =~= pages@);
            let mut out = "Global Web Search Results:\\n".to_owned();
            out.append(found.as_str());
            out
        },
    }
}

// ---- What is read, asked and told

/// A request holds all turns of the history, in order and each with its own text, behind the task.
pub proof fn requests_hold_every_turn(history: Seq<TurnView>, i: int)
    ensures
        opening_messages(history).len() == history.len() + 1,
        opening_messages(history)[0] == ChatMessageView::System(system_prompt()),
        0 <= i < history.len() && history[i].role is User ==> opening_messages(history)[i + 1]
            == ChatMessageView::User(history[i].content),
        0 <= i < history.len() && history[i].role is Assistant ==> opening_messages(history)[i + 1]
            == ChatMessageView::Assistant(history[i].content),
{
}

/// The calls of a reply are those of its list, all of them, each read at its own place.
pub proof fn calls_are_read_in_their_places(doc: JsonNodes, n: nat, k: int)
    requires
        ({
            let message = seq![
                JsonStep::Key("choices"@),
                JsonStep::Item(0),
                JsonStep::Key("message"@),
            ];
            list_at(doc, message.push(JsonStep::Key("tool_calls"@))) == Some(n)
        }),
    ensures
        ({
            let message = seq![
                JsonStep::Key("choices"@),
                JsonStep::Item(0),
                JsonStep::Key("message"@),
            ];
            let call = message.push(JsonStep::Key("tool_calls"@)).push(JsonStep::Item(k));
            let function = call.push(JsonStep::Key("function"@));
            let reply = chat_reply(doc);
            &&& reply.tool_calls matches ToolCallsView::Calls(calls)
            &&& calls.len() == n
            &&& 0 <= k < n ==> {
                &&& text_at(doc, call.push(JsonStep::Key("id"@))) matches Some(t) ==> calls[k].id == t
                &&& text_at(doc, function.push(JsonStep::Key("name"@))) matches Some(t)
                    ==> calls[k].name == t
                &&& text_at(doc, function.push(JsonStep::Key("arguments"@))) matches Some(t)
                    ==> calls[k].arguments == t
                &&& text_at(doc, function.push(JsonStep::Key("arguments"@))) is None
                    ==> calls[k].arguments == "{}"@
                &&& text_at(doc, call.push(JsonStep::Key("id"@))) is None ==> calls[k].id
                    == Seq::<char>::empty()
                &&& text_at(doc, function.push(JsonStep::Key("name"@))) is None ==> calls[k].name
                    == Seq::<char>::empty()
            }
            &&& reply.content == text_at(doc, message.push(JsonStep::Key("content"@)))
            &&& reply.message == below(doc, message)
        }),
{
}

/// A reply without a word on tools has none, and one that speaks of them without a list is
/// malformed.
pub proof fn tools_are_a_list_or_absent(doc: JsonNodes)
    ensures
        ({
            let place = seq![
                JsonStep::Key("choices"@),
                JsonStep::Item(0),
                JsonStep::Key("message"@),
                JsonStep::Key("tool_calls"@),
            ];
            &&& !doc.contains_key(place) ==> chat_reply(doc).tool_calls is Absent
            &&& doc.contains_key(place) && list_at(doc, place) is None ==> chat_reply(
                doc,
            ).tool_calls is Malformed
        }),
{
    assert(seq![
        JsonStep::Key("choices"@),
        JsonStep::Item(0),
        JsonStep::Key("message"@),
        JsonStep::Key("tool_calls"@),
    ] =~= calls_path());
}

/// Every call of a reply is carried out, however many there are; a reply without calls is the
/// answer.
pub proof fn replies_are_followed(plan: ReplyPlan, reply: ChatReplyView)
    requires
        plan_fits(plan, reply),
    ensures
        reply.tool_calls matches ToolCallsView::Calls(calls) ==> {
            &&& plan matches ReplyPlan::UseTools(round)
            &&& round.calls@.len() == calls.len()
            &&& forall|k: int| 0 <= k < calls.len() ==> (#[trigger] round.calls@[k])@ == calls[k]
            &&& json_contents(round.message) == reply.message
            &&& text_of(round.content) == reply.content
        },
        reply.tool_calls is Absent ==> (plan matches ReplyPlan::Answer(text) && text_of(text)
            == reply.content),
        reply.tool_calls is Malformed ==> plan is Malformed,
{
    if let ToolCallsView::Calls(calls) = reply.tool_calls {
        let round = plan->UseTools_0;
        assert forall|k: int| 0 <= k < calls.len() implies (#[trigger] round.calls@[k])@ == calls[k] by {
            assert(call_views(round.calls@)[k] == round.calls@[k]@);
        }
    }
}

/// What each tool reported is told under its own call and name.
pub proof fn each_call_gets_its_own_report(
    calls: Seq<ToolCallView>,
    results: Seq<Seq<char>>,
    k: int,
)
    requires
        0 <= k < calls.len() == results.len(),
    ensures
        tool_messages(calls, results).len() == calls.len(),
        tool_messages(calls, results)[k] == (ChatMessageView::Tool {
            call_id: calls[k].id,
            name: calls[k].name,
            content: results[k],
        }),
{
}

/// A tool that is not known is reported as such, and the query reaches the two that search, as it
/// was asked.
pub proof fn tools_are_chosen_by_name(name: Seq<char>, query: Seq<char>)
    ensures
        tool_action("get_wallet_balance"@, query) is WalletBalance,
        tool_action("get_network_stats"@, query) is NetworkStats,
        tool_action("search_kaspa_docs"@, query) == ToolActionView::SearchDocs(query),
        tool_action("search_live_internet"@, query) == ToolActionView::SearchInternet(query),
        name != "get_wallet_balance"@ && name != "get_network_stats"@ && name != "search_kaspa_docs"@
            && name != "search_live_internet"@ ==> tool_action(name, query)
            == ToolActionView::Unknown("Unknown function"@),
{
    queries_reach_their_tools(0, query);
    queries_reach_their_tools(1, query);
    queries_reach_their_tools(2, query);
    queries_reach_their_tools(3, query);
    reveal_strlit("get_wallet_balance");
    reveal_strlit("get_network_stats");
    reveal_strlit("search_kaspa_docs");
    reveal_strlit("search_live_internet");
    assert("get_wallet_balance"@.len() == 18);
    assert("get_network_stats"@.len() == 17);
    assert("search_kaspa_docs"@.len() == 17);
    assert("search_live_internet"@.len() == 20);
    assert("get_network_stats"@[0] == 'g');
    assert("search_kaspa_docs"@[0] == 's');
}

/// The query is the text that the arguments name so, whole; without one it is empty. A transcript
/// is the text that the service names so.
pub proof fn queries_and_transcripts_are_read_whole(doc: JsonNodes)
    ensures
        text_at(doc, seq![JsonStep::Key("query"@)]) matches Some(t) ==> query_of(Some(doc)) == t,
        text_at(doc, seq![JsonStep::Key("query"@)]) is None ==> query_of(Some(doc)) == Seq::<
            char,
        >::empty(),
        query_of(None) == Seq::<char>::empty(),
        transcript(Some(doc)) == text_at(doc, seq![JsonStep::Key("text"@)]),
        transcript(None) is None,
{
}

/// The answer is the text of the follow-up; without one, that of the first reply.
pub proof fn the_last_text_is_the_answer(last: Option<Seq<char>>, first: Option<Seq<char>>)
    ensures
        last is Some ==> answer_text(last, first) == last,
        last is None ==> answer_text(last, first) == first,
{
}

/// A message is sent with its role and its whole text, and what a tool reported also with its call
/// and its name.
pub proof fn messages_are_sent_whole(text: Seq<char>, call_id: Seq<char>, name: Seq<char>)
    ensures
        members(ChatMessageView::System(text)) == seq![("role"@, "system"@), ("content"@, text)],
        members(ChatMessageView::User(text)) == seq![("role"@, "user"@), ("content"@, text)],
        members(ChatMessageView::Assistant(text)) == seq![("role"@, "assistant"@), ("content"@, text)],
        members(ChatMessageView::Tool { call_id, name, content: text }) == seq![
            ("role"@, "tool"@),
            ("tool_call_id"@, call_id),
            ("name"@, name),
            ("content"@, text),
        ],
{
}

/// The wallets whose balance is asked for are all that the chat tracks and that are addresses.
pub proof fn balances_are_asked_for_all_addresses(
    list: Seq<Seq<char>>,
    book: Book,
    chat_id: i64,
    w: Seq<char>,
    i: int,
    j: int,
)
    requires
        lists_reachable(list, book, chat_id),
    ensures
        list.contains(w) <==> book.contains_key(w) && book[w].contains(chat_id) && is_address(w),
        0 <= i < j < list.len() ==> list[i] != list[j],
{
}

/// The details name every wallet, one after another, with its balance and the number of its
/// outputs.
pub proof fn details_name_every_wallet(lines: Seq<BalanceLine>, line: BalanceLine)
    ensures
        balance_details(Seq::empty()) == Seq::<char>::empty(),
        balance_details(lines.push(line)) == balance_details(lines) + "Wallet "@ + line.short@ + ": "@
            + line.amount@ + " KAS. "@ + "UTXOs: "@ + decimal(line.utxos as nat) + ". "@,
{
    assert(lines.push(line).drop_last() =~= lines);
}

/// The balance tool tells the total and the details of all wallets, unless there is no total.
pub proof fn balances_are_told_with_their_total(lines: Seq<BalanceLine>, total: Seq<char>)
    ensures
        balance_report(lines, Some(total)) == "Total Balance: "@ + total + " KAS. Details: "@
            + balance_details(lines),
        balance_report(lines, None) == "User has 0 balances or no wallets tracked."@,
{
}

/// The network tool tells each answer of the node, whichever others are missing.
pub proof fn every_answer_of_the_node_is_told(
    synced: Option<bool>,
    daa_score: Option<u64>,
    circulating: Option<Seq<char>>,
)
    ensures
        network_report(None, None, None) == Seq::<char>::empty(),
        network_report(Some(true), None, None) == "Sync Status: "@ + "100% Synced"@ + ". "@,
        network_report(Some(false), None, None) == "Sync Status: "@ + "Syncing"@ + ". "@,
        daa_score matches Some(n) ==> network_report(synced, daa_score, None) == network_report(
            synced,
            None,
            None,
        ) + "DAA Score: "@ + decimal(n as nat) + ". "@,
        circulating matches Some(t) ==> network_report(synced, daa_score, circulating)
            == network_report(synced, daa_score, None) + "Circulating Supply: "@ + t + " KAS. "@,
{
}

/// A search is made for the whole query.
pub proof fn searches_are_made_for_the_whole_query(query: Seq<char>)
    ensures
        search_address(query)
            == "https://en.wikipedia.org/w/api.php?action=query&list=search&srsearch="@
            + percent_encoded(encode_utf8(query)) + "&utf8=&format=json"@,
{
}

/// Encoding goes byte by byte: a byte that stands for itself is kept, and any other is written with
/// its two halves.
pub proof fn bytes_are_encoded_one_by_one(bytes: Seq<u8>, b: u8)
    ensures
        percent_encoded(Seq::empty()) == Seq::<char>::empty(),
        unreserved(b) ==> percent_encoded(bytes.push(b)) == percent_encoded(bytes) + seq![b as char],
        !unreserved(b) ==> percent_encoded(bytes.push(b)) == percent_encoded(bytes) + seq![
            '%',
            upper_hex_digit(b as int / 16),
            upper_hex_digit(b as int % 16),
        ],
{
    assert(bytes.push(b).drop_last() =~= bytes);
}

/// The pages of a reply are the first three of its list, or all if there are fewer, each read at
/// its own place; without a list there are none to report on.
pub proof fn the_first_pages_are_read(doc: JsonNodes, n: nat, k: int)
    ensures
        ({
            let place = seq![JsonStep::Key("query"@), JsonStep::Key("search"@)];
            let page = place.push(JsonStep::Item(k));
            &&& found_pages(None) is None
            &&& list_at(doc, place) is None ==> found_pages(Some(doc)) is None
            &&& list_at(doc, place) == Some(n) ==> {
                &&& found_pages(Some(doc)) matches Some(pages)
                &&& n >= 3 ==> pages.len() == 3
                &&& n < 3 ==> pages.len() == n
                &&& 0 <= k < pages.len() ==> {
                    &&& text_at(doc, page.push(JsonStep::Key("title"@))) matches Some(t)
                        ==> pages[k].0 == t
                    &&& text_at(doc, page.push(JsonStep::Key("snippet"@))) matches Some(t)
                        ==> pages[k].1 == t
                    &&& text_at(doc, page.push(JsonStep::Key("title"@))) is None ==> pages[k].0
                        == Seq::<char>::empty()
                    &&& text_at(doc, page.push(JsonStep::Key("snippet"@))) is None ==> pages[k].1
                        == Seq::<char>::empty()
                }
            }
        }),
{
}

/// The findings tell of every page, one after another, with its title and its snippet.
pub proof fn findings_tell_of_every_page(pages: Seq<SearchPage>, page: SearchPage)
    ensures
        findings(Seq::empty()) == Seq::<char>::empty(),
        findings(pages.push(page)) == findings(pages) + "Source: "@ + page.title@ + "\\nContent: "@
            + page.snippet@ + "\\n\\n"@,
{
    assert(pages.push(page).drop_last() =~= pages);
}

/// A search that found pages reports them all.
pub proof fn found_pages_are_reported(pages: Vec<SearchPage>)
    requires
        pages@.len() > 0,
    ensures
        search_report(SearchReply::Pages(pages)) == "Global Web Search Results:\\n"@ + findings(pages@),
{
}

/// There is a key exactly if one is set and it is not empty.
pub proof fn keys_are_not_empty(key: &str)
    ensures
        has_key(Some(key)) <==> key@.len() > 0,
        !has_key(None),
{
}

/// A voice note is loaded into a file of its own: notes of different messages never share one.
pub proof fn notes_have_files_of_their_own(a: i32, b: i32)
    ensures
        temp_path_text(a) == temp_path_text(b) <==> a == b,
        temp_path_text(a) == "temp_"@ + signed_decimal(a as int) + ".ogg"@,
{
    if temp_path_text(a) == temp_path_text(b) {
        let x = temp_path_text(a);
        let y = temp_path_text(b);
        let front = "temp_"@.len() as int;
        let back = ".ogg"@.len() as int;
        assert(x.subrange(front, x.len() - back) =~= signed_decimal(a as int));
        assert(y.subrange(front, y.len() - back) =~= signed_decimal(b as int));
        signed_numbers_are_told_apart(a as int, b as int);
    }
}

/// A voice note is uploaded from its own file, with the name, the type, the model and the language
/// that the service expects.
pub proof fn notes_are_uploaded_from_their_files(upload: VoiceUpload, message_id: i32)
    requires
        uploads(upload, message_id),
    ensures
        upload.temp_path@ == "temp_"@ + signed_decimal(message_id as int) + ".ogg"@,
        upload.file_name@ == "voice.ogg"@,
        upload.mime@ == "audio/ogg"@,
        upload.model@ == "whisper-1"@,
        upload.language@ == "ar"@,
{
}

/// The role of a message is the first of its members, and a message that is sent as it came has
/// neither.
pub proof fn roles_are_sent_first(message: ChatMessageView)
    ensures
        message is Echo ==> role_text(message) is None && members(message).len() == 0,
        !(message is Echo) ==> members(message)[0].0 == "role"@ && role_text(message) == Some(
            members(message)[0].1,
        ),
        chat_model() == "gpt-4o-mini"@,
{
}

/// Messages, calls, pages and members are viewed one by one, and none is left out.
pub proof fn items_are_viewed_one_by_one(
    messages: Seq<ChatMessage>,
    calls: Seq<ToolCall>,
    pages: Seq<SearchPage>,
    list: Seq<(String, String)>,
    i: int,
)
    ensures
        message_views(messages).len() == messages.len(),
        0 <= i < messages.len() ==> message_views(messages)[i] == messages[i]@,
        call_views(calls).len() == calls.len(),
        0 <= i < calls.len() ==> {
            &&& call_views(calls)[i].id == calls[i].id@
            &&& call_views(calls)[i].name == calls[i].name@
            &&& call_views(calls)[i].arguments == calls[i].arguments@
        },
        page_views(pages).len() == pages.len(),
        0 <= i < pages.len() ==> page_views(pages)[i] == (pages[i].title@, pages[i].snippet@),
        member_views(list).len() == list.len(),
        0 <= i < list.len() ==> member_views(list)[i] == (list[i].0@, list[i].1@),
{
}

/// A message is viewed with the text that it holds.
pub proof fn messages_are_viewed_whole(text: String, call_id: String, name: String)
    ensures
        ChatMessage::System(text)@ == ChatMessageView::System(text@),
        ChatMessage::User(text)@ == ChatMessageView::User(text@),
        ChatMessage::Assistant(text)@ == ChatMessageView::Assistant(text@),
        (ChatMessage::Tool { call_id, name, content: text })@ == (ChatMessageView::Tool {
            call_id: call_id@,
            name: name@,
            content: text@,
        }),
        ToolAction::SearchDocs(text)@ == ToolActionView::SearchDocs(text@),
        ToolAction::SearchInternet(text)@ == ToolActionView::SearchInternet(text@),
{
}

/// The final text of a conversation is that of its first choice, and so is the text of a reply.
pub proof fn texts_are_those_of_the_first_choice(doc: JsonNodes)
    ensures
        ({
            let place = seq![
                JsonStep::Key("choices"@),
                JsonStep::Item(0),
                JsonStep::Key("message"@),
                JsonStep::Key("content"@),
            ];
            &&& content_path() == place
            &&& chat_reply(doc).content == text_at(doc, place)
        }),
{
    assert(content_path() =~= seq![
        JsonStep::Key("choices"@),
        JsonStep::Item(0),
        JsonStep::Key("message"@),
        JsonStep::Key("content"@),
    ]);
}

/// A search without an answer, without a list and without pages is reported as such.
pub proof fn failed_searches_are_reported(pages: Vec<SearchPage>)
    ensures
        search_report(SearchReply::Unreachable) == "Error: Global internet connection failed."@,
        search_report(SearchReply::Unreadable) == "Error: Could not parse global server response."@,
        pages@.len() == 0 ==> search_report(SearchReply::Pages(pages))
            == "Global search completed but found no highly relevant new data."@,
{
}

} // verus!
