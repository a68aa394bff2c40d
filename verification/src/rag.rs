//! The knowledge base: documents with embeddings, and the search for those that fit a query best.

use crate::ai::{has_key, key_is_set};
use crate::json::{
    json_contents, json_document, list_at, list_under, number_at, number_under, parse, path_of,
    JsonNodes, JsonStep, Step,
};
use crate::text::{join, joined, texts};
use vstd::prelude::*;

verus! {

/// A document of the knowledge base. The numbers of its embedding are kept as the bit patterns of
/// doubles.
pub struct Document {
    pub title: String,
    pub content: String,
    pub embedding: Option<Vec<u64>>,
}

/// The view of a document.
pub struct DocumentView {
    pub title: Seq<char>,
    pub content: Seq<char>,
    pub embedding: Option<Seq<u64>>,
}

impl View for Document {
    type V = DocumentView;

    open spec fn view(&self) -> DocumentView {
        DocumentView {
            title: self.title@,
            content: self.content@,
            embedding: numbers_of(self.embedding),
        }
    }
}

/// The view of numbers that may be missing.
pub open spec fn numbers_of(numbers: Option<Vec<u64>>) -> Option<Seq<u64>> {
    match numbers {
        Some(v) => Some(v@),
        None => None,
    }
}

pub open spec fn document_views(docs: Seq<Document>) -> Seq<DocumentView> {
    Seq::new(docs.len(), |i: int| docs[i]@)
}

/// A request for the embedding of a text.
pub struct EmbeddingRequest {
    pub input: String,
    pub model: String,
}

pub open spec fn asks_for(request: EmbeddingRequest, text: Seq<char>) -> bool {
    request.input@ == text && request.model@ == "text-embedding-3-small"@
}

/// The request for the embedding of a text.
pub fn embedding_request(text: &str) -> (r: EmbeddingRequest)
    ensures
        asks_for(r, text@),
{
    EmbeddingRequest { input: text.to_owned(), model: "text-embedding-3-small".to_owned() }
}

// ---- Filling the knowledge base

/// The places of the documents that have no embedding, in order.
pub open spec fn missing(docs: Seq<DocumentView>) -> Seq<int>
    decreases docs.len(),
{
    if docs.len() == 0 {
        Seq::empty()
    } else if docs.last().embedding is None {
        missing(docs.drop_last()).push(docs.len() - 1)
    } else {
        missing(docs.drop_last())
    }
}

/// A document without an embedding, and the request for it.
pub struct EmbeddingTask {
    pub doc: usize,
    pub request: EmbeddingRequest,
}

/// Whether the tasks are those for the documents without an embedding, in order.
pub open spec fn tasks_cover(tasks: Seq<EmbeddingTask>, docs: Seq<DocumentView>) -> bool {
    &&& Seq::new(tasks.len(), |i: int| tasks[i].doc as int) == missing(docs)
    &&& forall|i: int|
        0 <= i < tasks.len() ==> asks_for(
            (#[trigger] tasks[i]).request,
            docs[tasks[i].doc as int].content,
        )
}

/// Plans the start of the knowledge base: the embeddings that have to be asked for. Without a key
/// there is no knowledge base.
pub fn init_knowledge_base(api_key: Option<&str>, docs: &Vec<Document>) -> (r: Option<Vec<EmbeddingTask>>)
    ensures
        r is Some <==> has_key(api_key),
        r matches Some(tasks) ==> tasks_cover(tasks@, document_views(docs@)),
{
    if !key_is_set(api_key) {
        return None;
    }
    let ghost views = document_views(docs@);
    let mut tasks: Vec<EmbeddingTask> = Vec::new();
    let mut i: usize = 0;
    assert(Seq::new(tasks@.len(), |k: int| tasks@[k].doc as int) =~= missing(views.take(0)));
    while i < docs.len()
        invariant
            i <= docs.len(),
            views == document_views(docs@),
            Seq::new(tasks@.len(), |k: int| tasks@[k].doc as int) == missing(views.take(i as int)),
            forall|k: int|
                0 <= k < tasks.len() ==> asks_for(
                    (#[trigger] tasks[k]).request,
                    views[tasks[k].doc as int].content,
                ),
        decreases docs.len() - i,
    {
        let ghost before = tasks@;
        assert(views.take(i + 1).drop_last() =~= views.take(i as int));
        if docs[i].embedding.is_none() {
            tasks.push(
                EmbeddingTask { doc: i, request: embedding_request(docs[i].content.as_str()) },
            );
            assert(Seq::new(tasks@.len(), |k: int| tasks@[k].doc as int) =~= Seq::new(
                before.len(),
                |k: int| before[k].doc as int,
            ).push(i as int));
        }
        i += 1;
    }
    assert(views.take(i as int) =~= views);
    Some(tasks)
}

/// The numbers among the first elements of a list. What is not a number is left out.
pub open spec fn numbers_in(doc: JsonNodes, path: Seq<JsonStep>, n: nat) -> Seq<u64>
    decreases n,
{
    if n == 0 {
        Seq::empty()
    } else {
        let front = numbers_in(doc, path, (n - 1) as nat);
        match number_at(doc, path.push(JsonStep::Item(n - 1))) {
            Some(bits) => front.push(bits),
            None => front,
        }
    }
}

/// Where the embedding stands in a reply.
pub open spec fn embedding_path() -> Seq<JsonStep> {
    seq![JsonStep::Key("data"@), JsonStep::Item(0), JsonStep::Key("embedding"@)]
}

/// The embedding that a reply brings, if it is JSON and has a list in its place.
pub open spec fn embedding_in(doc: Option<JsonNodes>) -> Option<Seq<u64>> {
    match doc {
        None => None,
        Some(d) => match list_at(d, embedding_path()) {
            None => None,
            Some(n) => Some(numbers_in(d, embedding_path(), n)),
        },
    }
}

/// The numbers of a list are kept in order, all of them; what is not a number is left out.
pub proof fn numbers_are_kept(doc: JsonNodes, path: Seq<JsonStep>, n: nat)
    ensures
        numbers_in(doc, path, n) == Seq::new(n, |i: int| i).filter_map(
            |i: int| number_at(doc, path.push(JsonStep::Item(i))),
        ),
    decreases n,
{
    let read = |i: int| number_at(doc, path.push(JsonStep::Item(i)));
    let places = Seq::new(n, |i: int| i);
    reveal(Seq::filter_map);
    if n > 0 {
        numbers_are_kept(doc, path, (n - 1) as nat);
        assert(places.drop_last() =~= Seq::new((n - 1) as nat, |i: int| i));
    }
    assert(numbers_in(doc, path, n) =~= places.filter_map(read));
}

proof fn all_numbers_are_kept(doc: JsonNodes, path: Seq<JsonStep>, n: nat)
    requires
        forall|i: int|
            0 <= i < n ==> (#[trigger] number_at(doc, path.push(JsonStep::Item(i)))) is Some,
    ensures
        numbers_in(doc, path, n).len() == n,
        forall|i: int|
            0 <= i < n ==> Some(#[trigger] numbers_in(doc, path, n)[i]) == number_at(
                doc,
                path.push(JsonStep::Item(i)),
            ),
    decreases n,
{
    if n > 0 {
        assert(number_at(doc, path.push(JsonStep::Item(n - 1))) is Some);
        all_numbers_are_kept(doc, path, (n - 1) as nat);
    }
}

/// A reply brings an embedding exactly if a list stands in its place. Where that holds numbers only,
/// the embedding is as long as the list, and each of its numbers is the one at the same place.
pub proof fn embeddings_are_read_whole(doc: JsonNodes, n: nat)
    ensures
        ({
            let place = seq![JsonStep::Key("data"@), JsonStep::Item(0), JsonStep::Key("embedding"@)];
            &&& embedding_in(None) is None
            &&& embedding_in(Some(doc)) is Some <==> list_at(doc, place) is Some
            &&& list_at(doc, place) == Some(n) ==> embedding_in(Some(doc)) == Some(
                Seq::new(n, |i: int| i).filter_map(
                    |i: int| number_at(doc, place.push(JsonStep::Item(i))),
                ),
            )
            &&& list_at(doc, place) == Some(n) && (forall|i: int|
                0 <= i < n ==> (#[trigger] number_at(doc, place.push(JsonStep::Item(i)))) is Some)
                ==> {
                &&& embedding_in(Some(doc))->0.len() == n
                &&& forall|i: int|
                    0 <= i < n ==> Some(#[trigger] embedding_in(Some(doc))->0[i]) == number_at(
                        doc,
                        place.push(JsonStep::Item(i)),
                    )
            }
        }),
{
    let place = seq![JsonStep::Key("data"@), JsonStep::Item(0), JsonStep::Key("embedding"@)];
    assert(place == embedding_path());
    numbers_are_kept(doc, place, n);
    if forall|i: int|
        0 <= i < n ==> (#[trigger] number_at(doc, place.push(JsonStep::Item(i)))) is Some {
        all_numbers_are_kept(doc, place, n);
    }
}

/// Reads the embedding from a reply.
pub fn read_embedding(body: &[u8]) -> (r: Option<Vec<u64>>)
    ensures
        numbers_of(r) == embedding_in(json_document(body@)),
{
    let v = match parse(body) {
        Some(v) => v,
        None => {
            return None;
        },
    };
    let ghost doc = json_contents(v);
    let steps = vec![Step::Key("data"), Step::Item(0), Step::Key("embedding")];
    assert(path_of(steps@) =~= embedding_path());
    let n: usize = match list_under(&v, &steps) {
        Some(n) => n,
        None => {
            return None;
        },
    };
    let mut numbers: Vec<u64> = Vec::new();
    let mut i: usize = 0;
    while i < n
        invariant
            i <= n,
            doc == json_contents(v),
            numbers@ == numbers_in(doc, embedding_path(), i as nat),
        decreases n - i,
    {
        let item = vec![Step::Key("data"), Step::Item(0), Step::Key("embedding"), Step::Item(i)];
        assert(path_of(item@) =~= embedding_path().push(JsonStep::Item(i as int)));
        if let Some(bits) = number_under(&v, &item) {
            numbers.push(bits);
        }
        i += 1;
    }
    Some(numbers)
}

/// The embedding that came back for a task: nothing if there was no reply or none in it.
pub open spec fn reply_embedding(replies: Seq<Option<Vec<u8>>>, k: int) -> Option<Seq<u64>> {
    if 0 <= k < replies.len() {
        match replies[k] {
            Some(body) => embedding_in(json_document(body@)),
            None => None,
        }
    } else {
        None
    }
}

/// The knowledge base after the replies: each document without an embedding takes the one that
/// came back for it, if one did, and nothing else changes.
pub open spec fn filled(docs: Seq<DocumentView>, replies: Seq<Option<Vec<u8>>>) -> Seq<DocumentView> {
    Seq::new(
        docs.len(),
        |i: int|
            if docs[i].embedding is None {
                DocumentView {
                    title: docs[i].title,
                    content: docs[i].content,
                    embedding: reply_embedding(replies, missing(docs.take(i)).len() as int),
                }
            } else {
                docs[i]
            },
    )
}

/// Takes in the replies, one for each task in order, and says whether any document has changed.
pub fn fill_embeddings(docs: &mut Vec<Document>, replies: &Vec<Option<Vec<u8>>>) -> (updated: bool)
    ensures
        document_views(final(docs)@) == filled(document_views(old(docs)@), replies@),
        updated <==> document_views(final(docs)@) != document_views(old(docs)@),
{
    let ghost start = document_views(docs@);
    let ghost goal = filled(start, replies@);
    let mut updated = false;
    let mut i: usize = 0;
    let mut k: usize = 0;
    while i < docs.len()
        invariant
            i <= docs.len(),
            k <= i,
            docs.len() == start.len(),
            goal == filled(start, replies@),
            k == missing(start.take(i as int)).len(),
            forall|j: int| 0 <= j < i ==> #[trigger] docs@[j]@ == goal[j],
            forall|j: int| i <= j < docs.len() ==> #[trigger] docs@[j]@ == start[j],
            updated <==> exists|j: int| 0 <= j < i && #[trigger] goal[j] != start[j],
        decreases docs.len() - i,
    {
        let ghost before = docs@;
        assert(start.take(i + 1).drop_last() =~= start.take(i as int));
        assert(docs@[i as int]@ == start[i as int]);
        if docs[i].embedding.is_none() {
            let numbers = if k < replies.len() {
                match &replies[k] {
                    Some(body) => read_embedding(body.as_slice()),
                    None => None,
                }
            } else {
                None
            };
            assert(numbers_of(numbers) == reply_embedding(replies@, k as int));
            if let Some(v) = numbers {
                docs[i].embedding = Some(v);
                updated = true;
                assert(docs@[i as int]@ == goal[i as int]);
                assert(goal[i as int] != start[i as int]);
            }
            k += 1;
        }
        assert forall|j: int| 0 <= j < docs.len() && j != i implies docs@[j] == before[j] by {}
        i += 1;
    }
    assert(document_views(docs@) =~= goal);
    proof {
        if updated {
            let j = choose|j: int| 0 <= j < i && #[trigger] goal[j] != start[j];
            assert(goal[j] != start[j]);
        } else {
            assert(goal =~= start);
        }
    }
    updated
}

/// Taking in replies never takes an embedding away or changes one, and never touches a title or a
/// content.
pub proof fn filling_keeps_what_is_there(docs: Seq<DocumentView>, replies: Seq<Option<Vec<u8>>>, i: int)
    requires
        0 <= i < docs.len(),
    ensures
        filled(docs, replies).len() == docs.len(),
        filled(docs, replies)[i].title == docs[i].title,
        filled(docs, replies)[i].content == docs[i].content,
        docs[i].embedding is Some ==> filled(docs, replies)[i] == docs[i],
{
}

/// Where every document has its embedding, nothing is asked for and nothing changes.
pub proof fn complete_base_needs_nothing(docs: Seq<DocumentView>, replies: Seq<Option<Vec<u8>>>)
    requires
        forall|i: int| 0 <= i < docs.len() ==> (#[trigger] docs[i]).embedding is Some,
    ensures
        missing(docs) == Seq::<int>::empty(),
        filled(docs, replies) == docs,
    decreases docs.len(),
{
    assert(filled(docs, replies) =~= docs);
    if docs.len() > 0 {
        assert(docs.last() == docs[docs.len() - 1]);
        assert forall|i: int| 0 <= i < docs.drop_last().len() implies (
        #[trigger] docs.drop_last()[i]).embedding is Some by {
            assert(docs.drop_last()[i] == docs[i]);
        }
        complete_base_needs_nothing(docs.drop_last(), replies);
    }
}

/// The documents without an embedding are counted as the list goes on.
proof fn missing_counts(docs: Seq<DocumentView>, i: int)
    requires
        0 <= i < docs.len(),
        docs[i].embedding is None,
    ensures
        missing(docs.take(i)).len() < missing(docs).len(),
    decreases docs.len(),
{
    let front = docs.drop_last();
    if i == docs.len() - 1 {
        assert(docs.take(i) =~= front);
    } else {
        assert(front.take(i) =~= docs.take(i));
        missing_counts(front, i);
    }
}

/// Once every embedding that was asked for came back, a fresh start asks for nothing.
pub proof fn filled_base_needs_nothing(docs: Seq<DocumentView>, replies: Seq<Option<Vec<u8>>>)
    requires
        forall|k: int|
            0 <= k < missing(docs).len() ==> (#[trigger] reply_embedding(replies, k)) is Some,
    ensures
        missing(filled(docs, replies)) == Seq::<int>::empty(),
{
    let after = filled(docs, replies);
    assert forall|i: int| 0 <= i < after.len() implies (#[trigger] after[i]).embedding is Some by {
        if docs[i].embedding is None {
            missing_counts(docs, i);
            assert(reply_embedding(replies, missing(docs.take(i)).len() as int) is Some);
        }
    }
    complete_base_needs_nothing(after, replies);
}

/// What the file tells after the replies were taken in: it is written anew, with all documents,
/// if any of them has changed, and left alone otherwise.
pub open spec fn file_after(docs: Seq<DocumentView>, replies: Seq<Option<Vec<u8>>>) -> Seq<DocumentView> {
    if filled(docs, replies) != docs {
        filled(docs, replies)
    } else {
        docs
    }
}

/// The file tells the whole knowledge base, so a fresh start has nothing to ask for once every
/// embedding came back.
pub proof fn file_tells_the_base(docs: Seq<DocumentView>, replies: Seq<Option<Vec<u8>>>)
    ensures
        file_after(docs, replies) == filled(docs, replies),
        (forall|k: int|
            0 <= k < missing(docs).len() ==> (#[trigger] reply_embedding(replies, k)) is Some)
            ==> missing(file_after(docs, replies)) == Seq::<int>::empty(),
{
    if forall|k: int|
        0 <= k < missing(docs).len() ==> (#[trigger] reply_embedding(replies, k)) is Some {
        filled_base_needs_nothing(docs, replies);
    }
}

/// Which embeddings are asked for depends only on which of them are there, not on their numbers.
pub proof fn requests_ignore_the_numbers(docs: Seq<DocumentView>, others: Seq<DocumentView>)
    requires
        docs.len() == others.len(),
        forall|i: int|
            0 <= i < docs.len() ==> (#[trigger] docs[i]).embedding is Some
                == #[trigger] others[i].embedding is Some,
    ensures
        missing(docs) == missing(others),
    decreases docs.len(),
{
    if docs.len() > 0 {
        let front = docs.drop_last();
        let other_front = others.drop_last();
        assert forall|i: int| 0 <= i < front.len() implies (#[trigger] front[i]).embedding is Some
            == #[trigger] other_front[i].embedding is Some by {
            assert(front[i] == docs[i] && other_front[i] == others[i]);
        }
        requests_ignore_the_numbers(front, other_front);
        assert(docs[docs.len() - 1].embedding is Some == others[docs.len() - 1].embedding is Some);
    }
}

/// A fresh start asks for nothing once every embedding came back, even where the file gives their
/// numbers back rounded: `read` is what was read from it.
pub proof fn fresh_start_asks_for_nothing(
    docs: Seq<DocumentView>,
    replies: Seq<Option<Vec<u8>>>,
    read: Seq<DocumentView>,
)
    requires
        forall|k: int|
            0 <= k < missing(docs).len() ==> (#[trigger] reply_embedding(replies, k)) is Some,
        read.len() == file_after(docs, replies).len(),
        forall|i: int|
            0 <= i < read.len() ==> (#[trigger] file_after(docs, replies)[i]).embedding is Some
                == #[trigger] read[i].embedding is Some,
    ensures
        missing(read) == Seq::<int>::empty(),
{
    file_tells_the_base(docs, replies);
    requests_ignore_the_numbers(file_after(docs, replies), read);
}

/// The knowledge base after documents were put in its place: the first ones stay.
pub open spec fn base_after(base: Option<Seq<DocumentView>>, docs: Seq<DocumentView>) -> Option<
    Seq<DocumentView>,
> {
    if base is None {
        Some(docs)
    } else {
        base
    }
}

/// The place of the knowledge base. It is empty at the start, and can be filled once.
pub struct KnowledgeBase {
    docs: Option<Vec<Document>>,
}

impl View for KnowledgeBase {
    type V = Option<Seq<DocumentView>>;

    closed spec fn view(&self) -> Option<Seq<DocumentView>> {
        match self.docs {
            Some(docs) => Some(document_views(docs@)),
            None => None,
        }
    }
}

impl KnowledgeBase {
    /// A place without a knowledge base.
    pub fn new() -> (r: KnowledgeBase)
        ensures
            r@ is None,
    {
        KnowledgeBase { docs: None }
    }

    /// Puts the documents in their place, unless a knowledge base is there: then nothing changes.
    /// Tells whether they were put there.
    pub fn set(&mut self, docs: Vec<Document>) -> (set: bool)
        ensures
            set <==> old(self)@ is None,
            final(self)@ == base_after(old(self)@, document_views(docs@)),
    {
        if self.docs.is_some() {
            return false;
        }
        self.docs = Some(docs);
        true
    }

    /// The documents, if there is a knowledge base.
    pub fn get(&self) -> (r: Option<&Vec<Document>>)
        ensures
            (match r {
                Some(docs) => Some(document_views(docs@)),
                None => None,
            }) == self@,
    {
        match &self.docs {
            Some(docs) => Some(docs),
            None => None,
        }
    }
}

fn copy_documents(docs: &Vec<Document>) -> (r: Vec<Document>)
    ensures
        document_views(r@) == document_views(docs@),
{
    let mut r: Vec<Document> = Vec::new();
    let mut i: usize = 0;
    while i < docs.len()
        invariant
            i <= docs.len(),
            document_views(r@) == document_views(docs@).take(i as int),
        decreases docs.len() - i,
    {
        let ghost before = document_views(r@);
        let embedding = match &docs[i].embedding {
            Some(numbers) => {
                let copy = numbers.clone();
                assert(copy@ =~= numbers@);
                Some(copy)
            },
            None => None,
        };
        let doc = Document {
            title: docs[i].title.clone(),
            content: docs[i].content.clone(),
            embedding,
        };
        assert(doc@ == docs@[i as int]@);
        r.push(doc);
        assert(document_views(r@) =~= before.push(docs@[i as int]@));
        assert(document_views(docs@).take(i + 1) =~= before.push(docs@[i as int]@));
        i += 1;
    }
    assert(document_views(r@) =~= document_views(docs@));
    r
}

/// What came of starting the knowledge base.
pub struct KnowledgeStart {
    /// The documents to write to the file: all of them, if any has changed. Without them the file
    /// is left alone.
    pub file: Option<Vec<Document>>,
    /// Whether the documents are the knowledge base now. It ends the program if they are not: the
    /// knowledge base can be started once.
    pub set: bool,
}

/// Starts the knowledge base with the documents of the file and the replies to the requests for
/// their embeddings. Without a key nothing happens.
pub fn start_knowledge_base(
    base: &mut KnowledgeBase,
    api_key: Option<&str>,
    docs: Vec<Document>,
    replies: &Vec<Option<Vec<u8>>>,
) -> (r: Option<KnowledgeStart>)
    ensures
        r is Some <==> has_key(api_key),
        r is None ==> final(base)@ == old(base)@,
        r matches Some(start) ==> {
            let all = filled(document_views(docs@), replies@);
            &&& start.file is Some <==> all != document_views(docs@)
            &&& start.file matches Some(file) ==> document_views(file@) == all
            &&& start.set <==> old(base)@ is None
            &&& final(base)@ == base_after(old(base)@, all)
        },
{
    if !key_is_set(api_key) {
        return None;
    }
    let mut all = docs;
    let updated = fill_embeddings(&mut all, replies);
    let file = if updated {
        Some(copy_documents(&all))
    } else {
        None
    };
    let set = base.set(all);
    Some(KnowledgeStart { file, set })
}

/// The knowledge base is started once: whatever a later start brings, it is refused, and the
/// documents of the first start stay.
pub proof fn a_second_start_is_refused(
    base: Option<Seq<DocumentView>>,
    first: Seq<DocumentView>,
    later: Seq<DocumentView>,
)
    ensures
        base_after(base, first) is Some,
        base_after(base_after(base, first), later) == base_after(base, first),
{
}

// ---- Searching

/// What to do with a search of the knowledge base.
pub enum SearchPlan {
    /// Report this at once.
    Refuse(String),
    /// Ask for the embedding of the query.
    Embed(EmbeddingRequest),
}

/// Decides on a search of the knowledge base, which may not be there.
pub fn search_kaspa_docs(base: Option<&Vec<Document>>, query: &str) -> (r: SearchPlan)
    ensures
        base is None ==> (r matches SearchPlan::Refuse(t) && t@
            == "Error: Knowledge base not initialized."@),
        base is Some ==> (r matches SearchPlan::Embed(request) && asks_for(request, query@)),
{
    match base {
        None => SearchPlan::Refuse("Error: Knowledge base not initialized.".to_owned()),
        Some(_) => SearchPlan::Embed(embedding_request(query)),
    }
}

/// The embedding of a query, or what to report if there is none.
pub open spec fn query_embedding(reply: Option<Option<JsonNodes>>) -> Result<Seq<u64>, Seq<char>> {
    match reply {
        None => Err("Failed to embed query."@),
        Some(doc) => match embedding_in(doc) {
            Some(numbers) if numbers.len() > 0 => Ok(numbers),
            _ => Err("Failed to process search query."@),
        },
    }
}

/// Reads the embedding of a query from the reply, if there was one.
pub fn read_query_embedding(reply: Option<&[u8]>) -> (r: Result<Vec<u64>, String>)
    ensures
        (match r {
            Ok(numbers) => Ok(numbers@),
            Err(text) => Err(text@),
        }) == query_embedding(
            match reply {
                Some(body) => Some(json_document(body@)),
                None => None,
            },
        ),
{
    match reply {
        None => Err("Failed to embed query.".to_owned()),
        Some(body) => match read_embedding(body) {
            Some(numbers) => {
                if numbers.len() > 0 {
                    Ok(numbers)
                } else {
                    Err("Failed to process search query.".to_owned())
                }
            },
            None => Err("Failed to process search query.".to_owned()),
        },
    }
}

/// The places of the documents that have an embedding, in order.
pub open spec fn present(docs: Seq<DocumentView>) -> Seq<int>
    decreases docs.len(),
{
    if docs.len() == 0 {
        Seq::empty()
    } else if docs.last().embedding is Some {
        present(docs.drop_last()).push(docs.len() - 1)
    } else {
        present(docs.drop_last())
    }
}

/// The places as mathematical integers.
pub open spec fn places(list: Seq<usize>) -> Seq<int> {
    Seq::new(list.len(), |i: int| list[i] as int)
}

/// The places of the documents that can be compared with a query.
pub fn candidates(docs: &Vec<Document>) -> (r: Vec<usize>)
    ensures
        places(r@) == present(document_views(docs@)),
        forall|k: int| 0 <= k < r.len() ==> #[trigger] r[k] < docs.len(),
        forall|i: int|
            0 <= i < docs@.len() && (#[trigger] docs@[i]).embedding is Some ==> r@.contains(
                i as usize,
            ),
{
    let ghost views = document_views(docs@);
    let mut r: Vec<usize> = Vec::new();
    let mut i: usize = 0;
    assert(places(r@) =~= present(views.take(0)));
    while i < docs.len()
        invariant
            i <= docs.len(),
            views == document_views(docs@),
            places(r@) == present(views.take(i as int)),
            forall|k: int| 0 <= k < r.len() ==> #[trigger] r[k] < i,
        decreases docs.len() - i,
    {
        let ghost before = r@;
        assert(views.take(i + 1).drop_last() =~= views.take(i as int));
        if docs[i].embedding.is_some() {
            r.push(i);
            assert(places(r@) =~= places(before).push(i as int));
        }
        i += 1;
    }
    assert(views.take(i as int) =~= views);
    assert forall|p: int| 0 <= p < docs@.len() && (#[trigger] docs@[p]).embedding is Some implies r@.contains(
        p as usize,
    ) by {
        assert(views[p].embedding is Some);
        present_lists(views, p);
        let k = present(views).index_of(p);
        assert(places(r@)[k] == p);
        assert(r@[k] == p as usize);
    }
    r
}

proof fn present_lists(docs: Seq<DocumentView>, p: int)
    requires
        0 <= p < docs.len(),
        docs[p].embedding is Some,
    ensures
        present(docs).contains(p),
    decreases docs.len(),
{
    let front = docs.drop_last();
    let list = present(docs);
    if p == docs.len() - 1 {
        assert(list[list.len() - 1] == p);
    } else {
        assert(front[p] == docs[p]);
        present_lists(front, p);
        assert(list[present(front).index_of(p)] == p);
    }
}

/// Whether the candidate `i` comes before the candidate `j`: its key is larger, or the keys are the
/// same and it was there first.
pub open spec fn goes_before(keys: Seq<i64>, i: int, j: int) -> bool {
    keys[i] > keys[j] || (keys[i] == keys[j] && i < j)
}

/// Whether `order` lists all candidates, each of them once, the best ones first.
pub open spec fn is_ranking(keys: Seq<i64>, order: Seq<int>) -> bool {
    &&& order.len() == keys.len()
    &&& forall|a: int| 0 <= a < order.len() ==> 0 <= #[trigger] order[a] < keys.len()
    &&& forall|i: int| 0 <= i < keys.len() ==> #[trigger] order.contains(i)
    &&& forall|a: int, b: int|
        0 <= a < b < order.len() ==> goes_before(keys, #[trigger] order[a], #[trigger] order[b])
}

/// The candidates with the best ones first.
pub open spec fn ranking(keys: Seq<i64>) -> Seq<int> {
    choose|order: Seq<int>| is_ranking(keys, order)
}

/// There is only one way to rank.
proof fn rankings_are_unique(keys: Seq<i64>, first: Seq<int>, second: Seq<int>)
    requires
        is_ranking(keys, first),
        is_ranking(keys, second),
    ensures
        first == second,
{
    assert forall|k: int| 0 <= k < first.len() implies first[k] == second[k] by {
        rankings_agree(keys, first, second, k);
    }
    assert(first =~= second);
}

proof fn rankings_agree(keys: Seq<i64>, first: Seq<int>, second: Seq<int>, k: int)
    requires
        is_ranking(keys, first),
        is_ranking(keys, second),
        0 <= k < first.len(),
    ensures
        first[k] == second[k],
    decreases k,
{
    assert forall|m: int| 0 <= m < k implies first[m] == second[m] by {
        rankings_agree(keys, first, second, m);
    }
    let j = second.index_of(first[k]);
    let m = first.index_of(second[k]);
    assert(second.contains(first[k]));
    assert(first.contains(second[k]));
    assert(second[j] == first[k] && first[m] == second[k]);
    if j < k {
        assert(first[j] == first[k]);
        assert(goes_before(keys, first[j], first[k]));
    } else if m < k {
        assert(second[m] == second[k]);
        assert(goes_before(keys, second[m], second[k]));
    } else if j > k && m > k {
        assert(goes_before(keys, second[k], second[j]));
        assert(goes_before(keys, first[k], first[m]));
    }
}

/// Ranks the candidates: the larger key first, and of equal keys the earlier candidate.
pub fn rank(keys: &Vec<i64>) -> (r: Vec<usize>)
    ensures
        is_ranking(keys@, places(r@)),
        places(r@) == ranking(keys@),
{
    let mut r: Vec<usize> = Vec::new();
    let mut i: usize = 0;
    while i < keys.len()
        invariant
            i <= keys.len(),
            is_ranking(keys@.take(i as int), places(r@)),
        decreases keys.len() - i,
    {
        let ghost before = places(r@);
        let ghost seen = keys@.take(i as int);
        assert forall|a: int| 0 <= a < r.len() implies #[trigger] r[a] < i by {
            assert(before[a] == r[a]);
        }
        let mut at: usize = 0;
        while at < r.len() && keys[r[at]] >= keys[i]
            invariant
                i < keys.len(),
                at <= r.len(),
                before == places(r@),
                seen == keys@.take(i as int),
                is_ranking(seen, before),
                forall|a: int| 0 <= a < r.len() ==> #[trigger] r[a] < i,
                forall|a: int| 0 <= a < at ==> keys@[before[a]] >= keys@[i as int],
            decreases r.len() - at,
        {
            assert(before[at as int] == r[at as int]);
            at += 1;
        }
        r.insert(at, i);
        proof {
            insertion_ranks(keys@.take(i + 1), before, at as int, i as int);
            assert(places(r@) =~= before.insert(at as int, i as int));
        }
        i += 1;
    }
    assert(keys@.take(i as int) =~= keys@);
    proof {
        rankings_are_unique(keys@, places(r@), ranking(keys@));
    }
    r
}

/// Putting the latest candidate behind those that are at least as good keeps a ranking.
proof fn insertion_ranks(keys: Seq<i64>, order: Seq<int>, at: int, i: int)
    requires
        keys.len() == i + 1,
        i >= 0,
        is_ranking(keys.take(i), order),
        0 <= at <= order.len(),
        forall|a: int| 0 <= a < at ==> keys[#[trigger] order[a]] >= keys[i],
        at < order.len() ==> keys[order[at]] < keys[i],
    ensures
        is_ranking(keys, order.insert(at, i)),
{
    let seen = keys.take(i);
    let longer = order.insert(at, i);
    assert forall|a: int| 0 <= a < longer.len() implies 0 <= #[trigger] longer[a] < keys.len() by {
        if a < at {
            assert(longer[a] == order[a]);
        } else if a > at {
            assert(longer[a] == order[a - 1]);
        }
    }
    assert forall|j: int| 0 <= j < keys.len() implies #[trigger] longer.contains(j) by {
        if j == i {
            assert(longer[at] == i);
        } else {
            assert(order.contains(j));
            let p = order.index_of(j);
            assert(order[p] == j);
            assert(longer[if p < at {
                p
            } else {
                p + 1
            }] == j);
        }
    }
    assert forall|a: int, b: int| 0 <= a < b < longer.len() implies goes_before(
        keys,
        #[trigger] longer[a],
        #[trigger] longer[b],
    ) by {
        let p = if a < at {
            a
        } else {
            a - 1
        };
        let q = if b < at {
            b
        } else {
            b - 1
        };
        if a != at && b != at {
            assert(longer[a] == order[p] && longer[b] == order[q]);
            assert(goes_before(seen, order[p], order[q]));
        } else if b == at {
            assert(longer[a] == order[a] && longer[b] == i);
        } else {
            assert(longer[a] == i && longer[b] == order[q]);
            if q > at {
                assert(goes_before(seen, order[at], order[q]));
            }
        }
    }
}

/// How well a candidate fits: a key by which candidates are compared, and the text to print.
pub struct Score {
    pub key: i64,
    pub label: String,
}

pub open spec fn score_keys(scores: Seq<Score>) -> Seq<i64> {
    Seq::new(scores.len(), |i: int| scores[i].key)
}

/// So many documents are reported at most.
pub const DOCUMENT_LIMIT: usize = 2;

/// One document of a report.
pub open spec fn document_entry(doc: DocumentView, score: Seq<char>) -> Seq<char> {
    "--- Document (Relevance: "@
        + score
        + ") ---\nTitle: "@
        + doc.title
        + "\nContent: "@
        + doc.content
}

/// The documents of a report, the best ones first.
pub open spec fn top_entries(docs: Seq<DocumentView>, scores: Seq<Score>) -> Seq<Seq<char>> {
    let order = ranking(score_keys(scores));
    Seq::new(
        if scores.len() < DOCUMENT_LIMIT {
            scores.len()
        } else {
            DOCUMENT_LIMIT as nat
        },
        |k: int| document_entry(docs[present(docs)[order[k]]], scores[order[k]].label@),
    )
}

/// What the search of the knowledge base reports.
pub open spec fn documents_report(docs: Seq<DocumentView>, scores: Seq<Score>) -> Seq<char> {
    if scores.len() == 0 {
        "No relevant official documentation found for this query."@
    } else {
        joined(top_entries(docs, scores), "\n\n"@)
    }
}

/// Writes what the search of the knowledge base reports, with one score for each candidate.
pub fn report_documents(docs: &Vec<Document>, scores: &Vec<Score>) -> (r: String)
    requires
        scores.len() == present(document_views(docs@)).len(),
    ensures
        r@ == documents_report(document_views(docs@), scores@),
{
    if scores.len() == 0 {
        return "No relevant official documentation found for this query.".to_owned();
    }
    let ghost views = document_views(docs@);
    let with_embedding = candidates(docs);
    let mut keys: Vec<i64> = Vec::new();
    let mut i: usize = 0;
    while i < scores.len()
        invariant
            i <= scores.len(),
            keys@ == score_keys(scores@).take(i as int),
        decreases scores.len() - i,
    {
        keys.push(scores[i].key);
        assert(score_keys(scores@).take(i + 1) =~= score_keys(scores@).take(i as int).push(
            scores[i as int].key,
        ));
        i += 1;
    }
    assert(keys@ =~= score_keys(scores@));
    let order = rank(&keys);
    let limit: usize = if scores.len() < DOCUMENT_LIMIT {
        scores.len()
    } else {
        DOCUMENT_LIMIT
    };
    let ghost entries = top_entries(views, scores@);
    let mut parts: Vec<String> = Vec::new();
    let mut k: usize = 0;
    assert(texts(parts@) =~= entries.take(0));
    while k < limit
        invariant
            k <= limit <= order.len(),
            limit == entries.len(),
            views == document_views(docs@),
            entries == top_entries(views, scores@),
            scores.len() == present(views).len(),
            places(with_embedding@) == present(views),
            forall|j: int|
                0 <= j < with_embedding.len() ==> #[trigger] with_embedding[j] < docs.len(),
            places(order@) == ranking(score_keys(scores@)),
            is_ranking(score_keys(scores@), places(order@)),
            texts(parts@) == entries.take(k as int),
        decreases limit - k,
    {
        assert(places(order@)[k as int] == order[k as int]);
        let at: usize = order[k];
        assert(places(with_embedding@)[at as int] == with_embedding[at as int]);
        assert(places(with_embedding@).len() == with_embedding.len());
        let doc = &docs[with_embedding[at]];
        let mut entry = "--- Document (Relevance: ".to_owned();
        entry.append(scores[at].label.as_str());
        entry.append(") ---\nTitle: ");
        entry.append(doc.title.as_str());
        entry.append("\nContent: ");
        entry.append(doc.content.as_str());
        let ghost before = texts(parts@);
        assert(entry@ == entries[k as int]);
        parts.push(entry);
        assert(texts(parts@) =~= before.push(entries[k as int]));
        assert(entries.take(k + 1) =~= entries.take(k as int).push(entries[k as int]));
        k += 1;
    }
    assert(entries.take(k as int) =~= entries);
    join(&parts, "\n\n")
}

/// The first place in an order, from `a` on, whose key is below `key`; the end of the order if
/// there is none.
spec fn first_below(keys: Seq<i64>, order: Seq<int>, key: i64, a: int) -> int
    decreases order.len() - a,
{
    if a >= order.len() {
        order.len() as int
    } else if keys[order[a]] < key {
        a
    } else {
        first_below(keys, order, key, a + 1)
    }
}

proof fn first_below_splits(keys: Seq<i64>, order: Seq<int>, key: i64, a: int)
    requires
        0 <= a <= order.len(),
    ensures
        ({
            let at = first_below(keys, order, key, a);
            &&& a <= at <= order.len()
            &&& forall|b: int| a <= b < at ==> keys[#[trigger] order[b]] >= key
            &&& at < order.len() ==> keys[order[at]] < key
        }),
    decreases order.len() - a,
{
    if a < order.len() && keys[order[a]] >= key {
        first_below_splits(keys, order, key, a + 1);
    }
}

/// Any keys can be ranked.
pub proof fn every_search_has_a_ranking(keys: Seq<i64>)
    ensures
        is_ranking(keys, ranking(keys)),
    decreases keys.len(),
{
    if keys.len() == 0 {
        assert(is_ranking(keys, Seq::empty()));
    } else {
        let i = keys.len() - 1;
        let front = keys.take(i);
        every_search_has_a_ranking(front);
        let order = ranking(front);
        let at = first_below(keys, order, keys[i], 0);
        first_below_splits(keys, order, keys[i], 0);
        insertion_ranks(keys, order, at, i);
        assert(is_ranking(keys, order.insert(at, i)));
    }
}

/// The documents of a report are the best ones: none that is left out has a larger key than one
/// that is reported.
pub proof fn best_documents_are_reported(keys: Seq<i64>, a: int, b: int)
    requires
        0 <= a < DOCUMENT_LIMIT <= b < keys.len(),
    ensures
        keys[ranking(keys)[a]] >= keys[ranking(keys)[b]],
{
    every_search_has_a_ranking(keys);
    assert(goes_before(keys, ranking(keys)[a], ranking(keys)[b]));
}

/// No document is reported twice.
pub proof fn reported_documents_differ(keys: Seq<i64>, a: int, b: int)
    requires
        0 <= a < b < keys.len(),
    ensures
        ranking(keys)[a] != ranking(keys)[b],
{
    every_search_has_a_ranking(keys);
    assert(goes_before(keys, ranking(keys)[a], ranking(keys)[b]));
}

// ---- What is asked for, filled and reported

proof fn places_up_to(docs: Seq<DocumentView>, n: int)
    requires
        0 <= n <= docs.len(),
    ensures
        missing(docs.take(n)) == Seq::new(n as nat, |i: int| i).filter(
            |i: int| docs[i].embedding is None,
        ),
        present(docs.take(n)) == Seq::new(n as nat, |i: int| i).filter(
            |i: int| docs[i].embedding is Some,
        ),
    decreases n,
{
    let places = Seq::new(n as nat, |i: int| i);
    reveal(Seq::filter);
    if n > 0 {
        places_up_to(docs, n - 1);
        assert(places.drop_last() =~= Seq::new((n - 1) as nat, |i: int| i));
        assert(docs.take(n).drop_last() =~= docs.take(n - 1));
    }
    assert(missing(docs.take(n)) =~= places.filter(|i: int| docs[i].embedding is None));
    assert(present(docs.take(n)) =~= places.filter(|i: int| docs[i].embedding is Some));
}

/// Embeddings are asked for at all places without one, and documents are compared at all places
/// with one, in order.
pub proof fn documents_are_parted_by_their_embeddings(docs: Seq<DocumentView>)
    ensures
        missing(docs) == Seq::new(docs.len(), |i: int| i).filter(|i: int| docs[i].embedding is None),
        present(docs) == Seq::new(docs.len(), |i: int| i).filter(|i: int| docs[i].embedding is Some),
{
    places_up_to(docs, docs.len() as int);
    assert(docs.take(docs.len() as int) =~= docs);
}

/// Each task asks for the embedding of the content of its document, and there is one for each
/// document without an embedding.
pub proof fn tasks_ask_for_the_contents(tasks: Seq<EmbeddingTask>, docs: Seq<DocumentView>, k: int)
    requires
        tasks_cover(tasks, docs),
    ensures
        tasks.len() == missing(docs).len(),
        0 <= k < tasks.len() ==> tasks[k].doc == missing(docs)[k] && tasks[k].request.input@
            == docs[missing(docs)[k]].content,
{
    let listed = Seq::new(tasks.len(), |i: int| tasks[i].doc as int);
    if 0 <= k < tasks.len() {
        assert(listed[k] == tasks[k].doc);
    }
}

proof fn place_of_a_task(docs: Seq<DocumentView>, k: int)
    requires
        0 <= k < missing(docs).len(),
    ensures
        0 <= missing(docs)[k] < docs.len(),
        docs[missing(docs)[k]].embedding is None,
        missing(docs.take(missing(docs)[k])).len() == k,
    decreases docs.len(),
{
    let front = docs.drop_last();
    if k < missing(front).len() {
        place_of_a_task(front, k);
        let i = missing(docs)[k];
        assert(missing(front)[k] == i);
        assert(front.take(i) =~= docs.take(i));
    } else {
        assert(docs.take(docs.len() - 1) =~= front);
    }
}

/// The reply to a task fills the document of that task: with the embedding that it brings, if it
/// came and brings one.
pub proof fn replies_fill_the_documents_of_their_tasks(
    docs: Seq<DocumentView>,
    replies: Seq<Option<Vec<u8>>>,
    k: int,
)
    requires
        0 <= k < missing(docs).len(),
    ensures
        ({
            let after = filled(docs, replies)[missing(docs)[k]].embedding;
            &&& k < replies.len() && replies[k] is Some ==> after == embedding_in(
                json_document(replies[k]->0@),
            )
            &&& k >= replies.len() || replies[k] is None ==> after is None
        }),
{
    place_of_a_task(docs, k);
}

/// The embedding of a query is what the reply brings, all of it; without a reply, and without a
/// number in it, the search reports that it failed.
pub proof fn queries_need_an_embedding(doc: Option<JsonNodes>)
    ensures
        query_embedding(None) is Err,
        embedding_in(doc) matches Some(numbers) && numbers.len() > 0 ==> query_embedding(Some(doc))
            == Ok::<Seq<u64>, Seq<char>>(embedding_in(doc)->0),
        embedding_in(doc) is None || embedding_in(doc)->0.len() == 0 ==> query_embedding(
            Some(doc),
        ) is Err,
{
}

/// A ranking names every candidate once, larger keys before smaller ones, and of equal keys the
/// earlier candidate before the later.
pub proof fn ranking_is_descending_and_stable(keys: Seq<i64>, a: int, b: int, i: int)
    requires
        0 <= a < b < keys.len(),
        0 <= i < keys.len(),
    ensures
        ranking(keys).len() == keys.len(),
        ranking(keys).contains(i),
        keys[ranking(keys)[a]] > keys[ranking(keys)[b]] || (keys[ranking(keys)[a]]
            == keys[ranking(keys)[b]] && ranking(keys)[a] < ranking(keys)[b]),
{
    every_search_has_a_ranking(keys);
    assert(goes_before(keys, ranking(keys)[a], ranking(keys)[b]));
}

/// With one candidate there is one ranking, and with several the first place is that of a candidate
/// with the largest key.
pub proof fn the_best_candidate_is_first(keys: Seq<i64>, i: int)
    requires
        0 <= i < keys.len(),
    ensures
        0 <= ranking(keys)[0] < keys.len(),
        keys[ranking(keys)[0]] >= keys[i],
        keys.len() == 1 ==> ranking(keys) == seq![0int],
{
    every_search_has_a_ranking(keys);
    let p = ranking(keys).index_of(i);
    assert(ranking(keys).contains(i));
    if p > 0 {
        assert(goes_before(keys, ranking(keys)[0], ranking(keys)[p]));
    }
    if keys.len() == 1 {
        assert(ranking(keys) =~= seq![0int]);
    }
}

/// The report names the two best documents, or the only one, each with its score, its title and its
/// whole content, the best one first.
pub proof fn the_best_two_are_reported_whole(docs: Seq<DocumentView>, scores: Seq<Score>)
    requires
        scores.len() == present(docs).len(),
    ensures
        ({
            let order = ranking(Seq::new(scores.len(), |i: int| scores[i].key));
            let entry = |k: int|
                "--- Document (Relevance: "@ + scores[order[k]].label@ + ") ---\nTitle: "@
                    + docs[present(docs)[order[k]]].title + "\nContent: "@
                    + docs[present(docs)[order[k]]].content;
            &&& scores.len() == 0 ==> documents_report(docs, scores)
                == "No relevant official documentation found for this query."@
            &&& scores.len() == 1 ==> documents_report(docs, scores) == entry(0)
            &&& scores.len() >= 2 ==> documents_report(docs, scores) == entry(0) + "\n\n"@ + entry(1)
        }),
{
    let keys = Seq::new(scores.len(), |i: int| scores[i].key);
    assert(keys =~= score_keys(scores));
    let entries = top_entries(docs, scores);
    if scores.len() >= 2 {
        assert(entries.len() == 2);
        assert(entries.drop_last().len() == 1);
        assert(entries.drop_last()[0] == entries[0]);
        assert(joined(entries.drop_last(), "\n\n"@) == entries[0]);
    }
}

/// Documents are viewed one by one, with all that they hold, and none is left out.
pub proof fn documents_are_viewed_one_by_one(docs: Seq<Document>, i: int)
    ensures
        document_views(docs).len() == docs.len(),
        0 <= i < docs.len() ==> {
            let doc = document_views(docs)[i];
            &&& doc.title == docs[i].title@
            &&& doc.content == docs[i].content@
            &&& docs[i].embedding is None ==> doc.embedding is None
            &&& docs[i].embedding matches Some(numbers) ==> doc.embedding == Some(numbers@)
        },
{
}

/// A request asks for the embedding of the whole text, from the one model.
pub proof fn whole_texts_are_embedded(request: EmbeddingRequest, text: Seq<char>)
    requires
        asks_for(request, text),
    ensures
        request.input@ == text,
        request.model@ == "text-embedding-3-small"@,
{
}

/// The knowledge base is all documents of its start, and stays what it is after that.
pub proof fn the_base_is_that_of_its_start(first: Seq<DocumentView>, later: Seq<DocumentView>)
    ensures
        base_after(None, first) == Some(first),
        base_after(Some(first), later) == Some(first),
{
}

} // verus!
