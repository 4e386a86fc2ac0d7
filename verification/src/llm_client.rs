//! What is sent to the text-generation service and what comes back, and the
//! prompts that ask it for statements.

use vstd::prelude::*;
use vstd::utf8::{encode_utf8, is_char_boundary};

use crate::config::{ExtractionQuestion, RdfSchema};
use crate::text::{
    byte_prefix, chars_of, cut_to_bytes, join2, lemma_byte_prefix_on_a_boundary, starts_with,
    text_of_range, texts, trim, trimmed,
};
use crate::text_map::Entries;

verus! {

/// One message of a conversation.
#[derive(Debug)]
pub struct ChatMessage {
    pub role: String,
    pub content: String,
}

/// A request for a completion. The sampling parameters are single-precision
/// numbers, held as their IEEE-754 bit patterns.
#[derive(Debug)]
pub struct ChatCompletionRequest {
    pub model: String,
    pub messages: Vec<ChatMessage>,
    pub temperature_bits: u32,
    pub max_tokens: u32,
    pub top_p_bits: Option<u32>,
    pub frequency_penalty_bits: Option<u32>,
    pub presence_penalty_bits: Option<u32>,
    pub stop: Option<Vec<String>>,
}

/// One completion that the service offers.
#[derive(Debug)]
pub struct ChatCompletionChoice {
    pub message: ChatMessage,
    pub finish_reason: String,
    pub index: u32,
}

/// How many tokens a completion took.
#[derive(Debug, Clone, Copy, PartialEq, Eq, Structural)]
pub struct Usage {
    pub prompt_tokens: u32,
    pub completion_tokens: u32,
    pub total_tokens: u32,
}

/// The answer of the service to a request for a completion.
#[derive(Debug)]
pub struct ChatCompletionResponse {
    pub id: String,
    pub object: String,
    pub created: u64,
    pub model: String,
    pub choices: Vec<ChatCompletionChoice>,
    pub usage: Usage,
}

/// A model that the service offers.
#[derive(Debug)]
pub struct Model {
    pub id: String,
    pub object: String,
    pub created: u64,
    pub owned_by: String,
}

/// The models that the service offers.
#[derive(Debug)]
pub struct ModelsResponse {
    pub object: String,
    pub data: Vec<Model>,
}

/// A completion as the rest of the program uses it. `response_time_millis`
/// is the time the service took, in milliseconds.
#[derive(Debug)]
pub struct LlmResponse {
    pub content: String,
    pub usage: Usage,
    pub model: String,
    pub finish_reason: String,
    pub response_time_millis: u64,
}

/// The bit pattern of `0.9`, the nucleus-sampling bound of every request.
pub const TOP_P: u32 = 0x3F66_6666;

/// The bit pattern of `0.0`, the penalty of every request.
pub const NO_PENALTY: u32 = 0;

/// What is appended to a prompt that asks for JSON.
pub open spec fn json_instruction() -> Seq<char> {
    "\n\nPlease respond with valid JSON only. Do not include any markdown formatting or explanation text."@
}

/// The messages of a request: the system prompt, if there is one, and then
/// the prompt of the user.
pub open spec fn conversation(prompt: Seq<char>, system_prompt: Option<Seq<char>>) -> Seq<
    (Seq<char>, Seq<char>),
> {
    match system_prompt {
        Some(system) => seq![("system"@, system), ("user"@, prompt)],
        None => seq![("user"@, prompt)],
    }
}

/// The roles and contents of `messages`.
pub open spec fn message_views(messages: Seq<ChatMessage>) -> Seq<(Seq<char>, Seq<char>)> {
    Seq::new(messages.len(), |i: int| (messages[i].role@, messages[i].content@))
}

/// `content` without the code fence that a model may put around its answer.
/// With white space around it removed, a text of at least six characters
/// that begins with three backticks and the word `json` and ends with three
/// backticks loses both; so does one that begins and ends with three
/// backticks. What is left is trimmed again.
pub open spec fn without_code_fence(content: Seq<char>) -> Seq<char> {
    let body = trim(content);
    if body.len() >= 10 && "```json"@.is_prefix_of(body) && body.skip(body.len() - 3) == "```"@ {
        trim(body.subrange(7, body.len() - 3))
    } else if body.len() >= 6 && "```"@.is_prefix_of(body) && body.skip(body.len() - 3) == "```"@ {
        trim(body.subrange(3, body.len() - 3))
    } else {
        body
    }
}

/// Builds the messages of a request.
pub fn build_messages(prompt: &str, system_prompt: Option<&str>) -> (messages: Vec<ChatMessage>)
    ensures
        message_views(messages@) == conversation(
            prompt@,
            match system_prompt {
                Some(s) => Some(s@),
                None => None,
            },
        ),
{
    let mut messages: Vec<ChatMessage> = Vec::new();
    match system_prompt {
        Some(system) => {
            messages.push(ChatMessage { role: "system".to_string(), content: system.to_string() });
        },
        None => {},
    }
    messages.push(ChatMessage { role: "user".to_string(), content: prompt.to_string() });
    assert(message_views(messages@) =~= conversation(
        prompt@,
        match system_prompt {
            Some(s) => Some(s@),
            None => None,
        },
    ));
    messages
}

/// Builds a request for a completion with the fixed sampling bounds.
pub fn build_request(
    model: &str,
    prompt: &str,
    system_prompt: Option<&str>,
    temperature_bits: u32,
    max_tokens: u32,
) -> (request: ChatCompletionRequest)
    ensures
        request.model@ == model@,
        message_views(request.messages@) == conversation(
            prompt@,
            match system_prompt {
                Some(s) => Some(s@),
                None => None,
            },
        ),
        request.temperature_bits == temperature_bits,
        request.max_tokens == max_tokens,
        request.top_p_bits == Some(TOP_P),
        request.frequency_penalty_bits == Some(NO_PENALTY),
        request.presence_penalty_bits == Some(NO_PENALTY),
        request.stop is None,
{
    ChatCompletionRequest {
        model: model.to_string(),
        messages: build_messages(prompt, system_prompt),
        temperature_bits,
        max_tokens,
        top_p_bits: Some(TOP_P),
        frequency_penalty_bits: Some(NO_PENALTY),
        presence_penalty_bits: Some(NO_PENALTY),
        stop: None,
    }
}

/// A prompt with the request to answer in JSON appended.
pub fn json_prompt(prompt: &str) -> (r: String)
    ensures
        r@ == prompt@ + json_instruction(),
{
    join2(
        prompt,
        "\n\nPlease respond with valid JSON only. Do not include any markdown formatting or explanation text.",
    )
}

/// Whether the last three characters of `v` are backticks.
fn ends_with_fence(v: &Vec<char>) -> (b: bool)
    requires
        v.len() >= 3,
    ensures
        b == (v@.skip(v@.len() - 3) == "```"@),
{
    proof {
        reveal_strlit("```");
    }
    let n = v.len();
    let b = v[n - 3] == '`' && v[n - 2] == '`' && v[n - 1] == '`';
    proof {
        let tail = v@.skip(v@.len() - 3);
        assert(tail.len() == 3);
        assert(tail[0] == v@[n - 3]);
        assert(tail[1] == v@[n - 2]);
        assert(tail[2] == v@[n - 1]);
        if b {
            assert(tail =~= "```"@);
        }
    }
    b
}

/// Removes the code fence around an answer.
pub fn strip_code_fence(content: &str) -> (r: String)
    ensures
        r@ == without_code_fence(content@),
{
    let body = trimmed(content);
    let v = chars_of(body.as_str());
    let n = v.len();
    if n >= 10 && starts_with(body.as_str(), "```json") && ends_with_fence(&v) {
        let inner = text_of_range(&v, 7, n - 3);
        trimmed(inner.as_str())
    } else if n >= 6 && starts_with(body.as_str(), "```") && ends_with_fence(&v) {
        let inner = text_of_range(&v, 3, n - 3);
        trimmed(inner.as_str())
    } else {
        body
    }
}

/// `url` without the slashes at its end.
pub open spec fn without_trailing_slashes(url: Seq<char>) -> Seq<char>
    decreases url.len(),
{
    if url.len() > 0 && url.last() == '/' {
        without_trailing_slashes(url.drop_last())
    } else {
        url
    }
}

/// Removes the slashes at the end of a base URL.
pub fn trim_base_url(url: &str) -> (r: String)
    ensures
        r@ == without_trailing_slashes(url@),
{
    let v = chars_of(url);
    let mut end: usize = v.len();
    assert(v@.take(end as int) == v@);
    while end > 0 && v[end - 1] == '/'
        invariant
            end <= v.len(),
            without_trailing_slashes(v@) == without_trailing_slashes(v@.take(end as int)),
        decreases end,
    {
        assert(v@.take(end as int).drop_last() == v@.take(end - 1));
        end -= 1;
    }
    let r = text_of_range(&v, 0, end);
    assert(v@.subrange(0, end as int) == v@.take(end as int));
    r
}

/// The path of the service's health check.
pub fn health_url(base_url: &str) -> (r: String)
    ensures
        r@ == base_url@ + "/health"@,
{
    join2(base_url, "/health")
}

/// The path under which the service lists its models.
pub fn models_url(base_url: &str) -> (r: String)
    ensures
        r@ == base_url@ + "/v1/models"@,
{
    join2(base_url, "/v1/models")
}

/// The path under which the service completes conversations.
pub fn completions_url(base_url: &str) -> (r: String)
    ensures
        r@ == base_url@ + "/v1/chat/completions"@,
{
    join2(base_url, "/v1/chat/completions")
}

/// The value of the authorization header for `key`.
pub fn bearer(key: &str) -> (r: String)
    ensures
        r@ == "Bearer "@ + key@,
{
    join2("Bearer ", key)
}

// ---------------------------------------------------------------------------
// Prompts
// ---------------------------------------------------------------------------

/// How many bytes of a document, in UTF-8, go into a prompt.
pub const DOCUMENT_LIMIT: usize = 8000;

/// The part of a document that a prompt shows: all of it where its UTF-8
/// form has at most 8000 bytes, and otherwise its first 8000 bytes, less
/// the bytes of a character that byte 8000 would cut in two.
pub open spec fn shown_document(document: Seq<char>) -> Seq<char> {
    byte_prefix(document, DOCUMENT_LIMIT as int)
}

/// Where byte 8000 of a longer document stands between two characters, the
/// prompt shows exactly the first 8000 bytes.
pub proof fn lemma_shown_document_on_a_boundary(document: Seq<char>)
    requires
        encode_utf8(document).len() > DOCUMENT_LIMIT,
        is_char_boundary(encode_utf8(document), DOCUMENT_LIMIT as int),
    ensures
        encode_utf8(shown_document(document)) == encode_utf8(document).subrange(
            0,
            DOCUMENT_LIMIT as int,
        ),
{
    lemma_byte_prefix_on_a_boundary(document, DOCUMENT_LIMIT as int);
}

/// The part of `document_text` that a prompt shows.
pub fn cut_document(document_text: &str) -> (shown: String)
    ensures
        shown@ == shown_document(document_text@),
{
    cut_to_bytes(document_text, DOCUMENT_LIMIT)
}

/// `items` joined by `separator`.
pub open spec fn joined(items: Seq<Seq<char>>, separator: Seq<char>) -> Seq<char>
    decreases items.len(),
{
    if items.len() == 0 {
        Seq::empty()
    } else if items.len() == 1 {
        items[0]
    } else {
        joined(items.drop_last(), separator) + separator + items.last()
    }
}

/// What a prompt says of one question: its id and text, and its constraints
/// if it has any.
pub open spec fn question_lines(q: ExtractionQuestion) -> Seq<char> {
    let first = "- "@ + q.id@ + ": "@ + q.question@ + "\n"@;
    if q.constraints@.len() == 0 {
        first
    } else {
        first + "  Constraints: "@ + joined(texts(q.constraints@), ", "@) + "\n"@
    }
}

/// What a prompt says of `questions`.
pub open spec fn questions_section(questions: Seq<ExtractionQuestion>) -> Seq<char>
    decreases questions.len(),
{
    if questions.len() == 0 {
        Seq::empty()
    } else {
        questions_section(questions.drop_last()) + question_lines(questions.last())
    }
}

/// What a prompt says of the predicates of a schema.
pub open spec fn predicate_lines(predicates: Entries) -> Seq<char>
    decreases predicates.len(),
{
    if predicates.len() == 0 {
        Seq::empty()
    } else {
        predicate_lines(predicates.drop_last()) + "- "@ + predicates.last().0 + ": "@
            + predicates.last().1 + "\n"@
    }
}

/// The instructions that close an extraction prompt.
pub open spec fn extraction_instructions() -> Seq<char> {
    "\nExtract the requested information from the document and return it as RDF triples.\nEach triple should have:\n- subject: The entity being described (use URIs from the base URI)\n- predicate: The relationship or property (use predicates from the schema)\n- object: The value or related entity\n\nReturn the triples as a JSON array with objects containing 'subject', 'predicate', and 'object' fields.\nOnly extract information that directly answers the specified questions.\nIf information is not found in the document, do not create triples for it.\n\nExample format:\n[\n  {\n    \"subject\": \"http://example.org/resource/company1\",\n    \"predicate\": \"http://example.org/ontology#hasName\",\n    \"object\": \"Acme Corporation\"\n  }\n]\n"@
}

/// The prompt that asks for the statements of a document: the document, cut
/// to its first 8000 bytes, the questions, the schema with its predicates,
/// and the instructions.
pub open spec fn extraction_prompt(
    document: Seq<char>,
    questions: Seq<ExtractionQuestion>,
    schema: RdfSchema,
) -> Seq<char> {
    let shown = shown_document(document);
    let known = if schema.predicates@.len() == 0 {
        Seq::<char>::empty()
    } else {
        "\nAvailable Predicates:\n"@ + predicate_lines(schema.predicates@)
    };
    "## Document Content\n"@ + shown + "\n\n"@ + "## Information to Extract\n"@ + questions_section(
        questions,
    ) + "\n"@ + "## RDF Schema\n"@ + "Base URI: "@ + schema.base_uri@ + "\n"@ + "Namespace: "@
        + schema.namespace@ + "\n"@ + known + "\n## Instructions\n"@ + extraction_instructions()
}

/// The system prompt of an extraction.
pub open spec fn system_prompt_text() -> Seq<char> {
    "You are an expert knowledge extraction system specializing in converting unstructured text into structured RDF triples.\n\nYour task is to:\n1. Carefully read and understand the provided document\n2. Extract only the information that directly answers the specified questions\n3. Structure the extracted information as valid RDF triples\n4. Ensure all URIs are properly formatted using the provided base URI\n5. Use only the predicates defined in the schema\n6. Be precise and avoid inferring information not explicitly stated\n\nReturn your response as a JSON array of triple objects."@
}

/// Joins strings with a separator.
pub fn join_all(items: &Vec<String>, separator: &str) -> (r: String)
    ensures
        r@ == joined(texts(items@), separator@),
{
    let ghost all = texts(items@);
    let mut out = String::new();
    let mut i: usize = 0;
    assert(all.take(0) =~= Seq::<Seq<char>>::empty());
    while i < items.len()
        invariant
            i <= items.len(),
            all == texts(items@),
            out@ == joined(all.take(i as int), separator@),
        decreases items.len() - i,
    {
        let ghost before = out@;
        proof {
            let next = all.take(i + 1);
            assert(next.drop_last() == all.take(i as int));
            assert(next.last() == items@[i as int]@);
            if i == 0 {
                assert(next[0] == items@[0]@);
            }
        }
        if i > 0 {
            out.append(separator);
        }
        out.append(items[i].as_str());
        assert(out@ =~= joined(all.take(i + 1), separator@));
        i += 1;
    }
    assert(all.take(items@.len() as int) == all);
    out
}

/// Writes prompts.
#[derive(Debug, Clone, Copy, PartialEq, Eq, Structural)]
pub struct PromptBuilder;

impl PromptBuilder {
    /// Writes the prompt that asks for the statements of a document.
    pub fn build_extraction_prompt(
        document_text: &str,
        questions: &[ExtractionQuestion],
        schema: &RdfSchema,
    ) -> (prompt: String)
        ensures
            prompt@ == extraction_prompt(document_text@, questions@, *schema),
    {
        let mut prompt = String::new();
        prompt.append("## Document Content\n");
        prompt.append(cut_document(document_text).as_str());
        prompt.append("\n\n");
        prompt.append("## Information to Extract\n");
        let ghost head = prompt@;
        let mut i: usize = 0;
        assert(prompt@ =~= head + questions_section(questions@.take(0)));
        while i < questions.len()
            invariant
                i <= questions.len(),
                prompt@ == head + questions_section(questions@.take(i as int)),
            decreases questions.len() - i,
        {
            let ghost before = prompt@;
            proof {
                let next = questions@.take(i + 1);
                assert(next.drop_last() == questions@.take(i as int));
                assert(next.last() == questions@[i as int]);
            }
            let q = &questions[i];
            prompt.append("- ");
            prompt.append(q.id.as_str());
            prompt.append(": ");
            prompt.append(q.question.as_str());
            prompt.append("\n");
            if q.constraints.len() > 0 {
                prompt.append("  Constraints: ");
                prompt.append(join_all(&q.constraints, ", ").as_str());
                prompt.append("\n");
            }
            assert(prompt@ =~= before + question_lines(questions@[i as int]));
            i += 1;
        }
        assert(questions@.take(questions@.len() as int) == questions@);
        prompt.append("\n");
        prompt.append("## RDF Schema\n");
        prompt.append("Base URI: ");
        prompt.append(schema.base_uri.as_str());
        prompt.append("\n");
        prompt.append("Namespace: ");
        prompt.append(schema.namespace.as_str());
        prompt.append("\n");
        if !schema.predicates.is_empty() {
            prompt.append("\nAvailable Predicates:\n");
            let ghost start = prompt@;
            let ghost known = schema.predicates@;
            let mut k: usize = 0;
            assert(prompt@ =~= start + predicate_lines(known.take(0)));
            while k < schema.predicates.len()
                invariant
                    k <= known.len(),
                    known == schema.predicates@,
                    prompt@ == start + predicate_lines(known.take(k as int)),
                decreases known.len() - k,
            {
                let ghost before = prompt@;
                proof {
                    let next = known.take(k + 1);
                    assert(next.drop_last() == known.take(k as int));
                    assert(next.last() == known[k as int]);
                }
                prompt.append("- ");
                prompt.append(schema.predicates.key_at(k).as_str());
                prompt.append(": ");
                prompt.append(schema.predicates.value_at(k).as_str());
                prompt.append("\n");
                assert(prompt@ =~= start + predicate_lines(known.take(k + 1)));
                k += 1;
            }
            assert(known.take(known.len() as int) == known);
        }
        prompt.append("\n## Instructions\n");
        prompt.append(
            "\nExtract the requested information from the document and return it as RDF triples.\nEach triple should have:\n- subject: The entity being described (use URIs from the base URI)\n- predicate: The relationship or property (use predicates from the schema)\n- object: The value or related entity\n\nReturn the triples as a JSON array with objects containing 'subject', 'predicate', and 'object' fields.\nOnly extract information that directly answers the specified questions.\nIf information is not found in the document, do not create triples for it.\n\nExample format:\n[\n  {\n    \"subject\": \"http://example.org/resource/company1\",\n    \"predicate\": \"http://example.org/ontology#hasName\",\n    \"object\": \"Acme Corporation\"\n  }\n]\n",
        );
        assert(prompt@ =~= extraction_prompt(document_text@, questions@, *schema));
        prompt
    }

    /// The system prompt of an extraction.
    pub fn get_system_prompt() -> (prompt: &'static str)
        ensures
            prompt@ == system_prompt_text(),
    {
        "You are an expert knowledge extraction system specializing in converting unstructured text into structured RDF triples.\n\nYour task is to:\n1. Carefully read and understand the provided document\n2. Extract only the information that directly answers the specified questions\n3. Structure the extracted information as valid RDF triples\n4. Ensure all URIs are properly formatted using the provided base URI\n5. Use only the predicates defined in the schema\n6. Be precise and avoid inferring information not explicitly stated\n\nReturn your response as a JSON array of triple objects."
    }
}

} // verus!
