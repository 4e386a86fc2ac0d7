//! Templates: what a template is, what is asked of the graph to fill it, and
//! the texts that are written around it.

use vstd::prelude::*;
use vstd::string::StringSliceAdditionalSpecFns;
use vstd::utf8::encode_utf8;

use crate::knowledge_graph::model::Statements;
use crate::knowledge_graph::query::{
    is_select, row_views, shape_of, ResultsView, SimpleSparqlResults,
};
use crate::knowledge_graph::store::KnowledgeGraph;
use crate::llm_client::{join_all, joined};
use crate::display::truth;
use crate::text::{
    byte_prefix, chars_of, char_is_white_space, cut_to_bytes, decimal, decimal_text, integer_of,
    is_white_space, join2, occurs_at, parse_integer, same_text, text_of_range, texts,
};
use crate::text_map::{lookup, Entries, TextMap};

verus! {

// ---------------------------------------------------------------------------
// Data
// ---------------------------------------------------------------------------

/// The kinds of document that a template produces.
#[derive(Debug)]
pub enum TemplateType {
    Report,
    Summary,
    Form,
    Article,
    Email,
    Presentation,
    Custom(String),
}

impl TemplateType {
    /// The name of the kind.
    pub open spec fn name(self) -> Seq<char> {
        match self {
            TemplateType::Report => "report"@,
            TemplateType::Summary => "summary"@,
            TemplateType::Form => "form"@,
            TemplateType::Article => "article"@,
            TemplateType::Email => "email"@,
            TemplateType::Presentation => "presentation"@,
            TemplateType::Custom(name) => name@,
        }
    }

    /// Writes the name of the kind.
    pub fn to_text(&self) -> (text: String)
        ensures
            text@ == self.name(),
    {
        match self {
            TemplateType::Report => "report".to_string(),
            TemplateType::Summary => "summary".to_string(),
            TemplateType::Form => "form".to_string(),
            TemplateType::Article => "article".to_string(),
            TemplateType::Email => "email".to_string(),
            TemplateType::Presentation => "presentation".to_string(),
            TemplateType::Custom(name) => name.clone(),
        }
    }
}

/// The forms in which a generated document is written.
#[derive(Debug, Clone, Copy, PartialEq, Eq, Structural)]
pub enum OutputFormat {
    Markdown,
    Html,
    PlainText,
    Json,
    Pdf,
}

/// One question that a template asks of the graph.
#[derive(Debug)]
pub struct DataQuery {
    pub id: String,
    pub description: String,
    pub sparql_query: String,
    pub required: bool,
    pub transform: Option<String>,
}

/// What to do with a document once it is rendered.
#[derive(Debug)]
pub struct PostProcessingConfig {
    pub enhance_with_llm: bool,
    pub style_guide: Option<String>,
    pub word_limit: Option<usize>,
    pub include_sources: bool,
}

/// A template.
#[derive(Debug)]
pub struct Template {
    pub id: String,
    pub name: String,
    pub description: String,
    pub template_type: TemplateType,
    pub data_queries: Vec<DataQuery>,
    pub template_content: String,
    pub output_format: OutputFormat,
    pub llm_instructions: Option<String>,
    pub post_processing: Option<PostProcessingConfig>,
}

/// A field of a template that is to be filled in.
#[derive(Debug)]
pub struct TemplateField {
    pub field_name: String,
    pub field_type: String,
    pub description: String,
    pub required: bool,
}

/// A field as contracts see it.
pub struct FieldView {
    pub field_name: Seq<char>,
    pub field_type: Seq<char>,
    pub description: Seq<char>,
    pub required: bool,
}

impl View for TemplateField {
    type V = FieldView;

    open spec fn view(&self) -> FieldView {
        FieldView {
            field_name: self.field_name@,
            field_type: self.field_type@,
            description: self.description@,
            required: self.required,
        }
    }
}

/// The fields that a vector of fields stands for.
pub open spec fn field_views(fields: Seq<TemplateField>) -> Seq<FieldView> {
    Seq::new(fields.len(), |i: int| fields[i]@)
}

// ---------------------------------------------------------------------------
// Queries of a template
// ---------------------------------------------------------------------------

/// The text of the query that is run for `query`: the override for its id,
/// where there is one, and its own text otherwise.
pub open spec fn effective_query(query: DataQuery, overrides: Option<Entries>) -> Seq<char> {
    match overrides {
        Some(entries) => match lookup(entries, query.id@) {
            Some(text) => text,
            None => query.sparql_query@,
        },
        None => query.sparql_query@,
    }
}

/// Chooses the text of the query that is run for `query`.
pub fn choose_query(query: &DataQuery, overrides: Option<&TextMap>) -> (text: String)
    ensures
        text@ == effective_query(
            *query,
            match overrides {
                Some(m) => Some(m@),
                None => None,
            },
        ),
{
    match overrides {
        Some(map) => match map.get(query.id.as_str()) {
            Some(text) => text.clone(),
            None => query.sparql_query.clone(),
        },
        None => query.sparql_query.clone(),
    }
}

/// What becomes of a generation when a query fails.
#[derive(Debug)]
pub enum QueryFailure {
    /// The query was required: the generation ends with this message.
    Abort(String),
    /// The query was optional: its place in the context is left empty.
    Substitute,
}

/// Decides what a failed query means: a required query ends the
/// generation, an optional one is passed over.
pub fn on_query_failure(query: &DataQuery, detail: &str) -> (outcome: QueryFailure)
    ensures
        query.required ==> outcome is Abort && outcome->Abort_0@ == "Required query '"@ + query.id@
            + "' failed: "@ + detail@,
        !query.required ==> outcome is Substitute,
{
    if query.required {
        let mut message = join2("Required query '", query.id.as_str());
        message.append("' failed: ");
        message.append(detail);
        QueryFailure::Abort(message)
    } else {
        QueryFailure::Substitute
    }
}

/// What a query that is refused is told.
pub open spec fn refusal() -> Seq<char> {
    "Only SELECT queries are supported in this simplified implementation"@
}

/// Whether the graph accepts the query that is run for `query`.
pub open spec fn is_accepted(query: DataQuery, overrides: Option<Entries>) -> bool {
    is_select(effective_query(query, overrides))
}

/// The index of the first query at or after `from` that is required and
/// refused, or the number of queries when there is none.
pub open spec fn first_fatal(queries: Seq<DataQuery>, overrides: Option<Entries>, from: int) -> int
    decreases queries.len() - from,
{
    if from < 0 || from >= queries.len() {
        queries.len() as int
    } else if queries[from].required && !is_accepted(queries[from], overrides) {
        from
    } else {
        first_fatal(queries, overrides, from + 1)
    }
}

/// What a query contributes to the context of a template: its id with the
/// rows that the graph answers, or with nothing where the query is refused.
pub open spec fn contribution(graph: Statements, query: DataQuery, overrides: Option<Entries>) -> (
    Seq<char>,
    Option<ResultsView>,
) {
    let text = effective_query(query, overrides);
    (
        query.id@,
        if is_select(text) {
            Some(ResultsView::Solutions(shape_of(text).rows(graph)))
        } else {
            None
        },
    )
}

/// The contributions that a vector of answers stands for.
pub open spec fn contribution_views(answers: Seq<(String, Option<SimpleSparqlResults>)>) -> Seq<
    (Seq<char>, Option<ResultsView>),
> {
    Seq::new(
        answers.len(),
        |i: int|
            (
                answers[i].0@,
                match answers[i].1 {
                    Some(results) => Some(results@),
                    None => None,
                },
            ),
    )
}

/// Runs the queries of a template on the graph, in order, each with its
/// override where there is one. A required query that the graph refuses ends
/// the run with a message that names it. Otherwise every query contributes:
/// the rows of its answer, or nothing where it is optional and refused.
pub fn run_data_queries(
    graph: &KnowledgeGraph,
    queries: &Vec<DataQuery>,
    overrides: Option<&TextMap>,
) -> (r: Result<Vec<(String, Option<SimpleSparqlResults>)>, String>)
    ensures
        ({
            let given = match overrides {
                Some(m) => Some(m@),
                None => None,
            };
            let fatal = first_fatal(queries@, given, 0);
            &&& r is Err <==> fatal < queries@.len()
            &&& r is Err ==> r->Err_0@ == "Required query '"@ + queries@[fatal].id@ + "' failed: "@
                + refusal()
            &&& r is Ok ==> contribution_views(r->Ok_0@) == Seq::new(
                queries@.len(),
                |i: int| contribution(graph@, queries@[i], given),
            )
        }),
{
    let ghost given = match overrides {
        Some(m) => Some(m@),
        None => None,
    };
    let mut answers: Vec<(String, Option<SimpleSparqlResults>)> = Vec::new();
    let mut i: usize = 0;
    while i < queries.len()
        invariant
            i <= queries.len(),
            given == match overrides {
                Some(m) => Some(m@),
                None => None,
            },
            first_fatal(queries@, given, 0) == first_fatal(queries@, given, i as int),
            answers.len() == i,
            forall|k: int|
                0 <= k < i ==> (#[trigger] contribution_views(answers@)[k]) == contribution(
                    graph@,
                    queries@[k],
                    given,
                ),
        decreases queries.len() - i,
    {
        let query = &queries[i];
        let text = choose_query(query, overrides);
        let ghost before = contribution_views(answers@);
        match graph.execute_sparql(text.as_str()) {
            Ok(results) => {
                answers.push((query.id.clone(), Some(results)));
            },
            Err(e) => match on_query_failure(query, e.message().as_str()) {
                QueryFailure::Abort(message) => {
                    return Err(message);
                },
                QueryFailure::Substitute => {
                    answers.push((query.id.clone(), None));
                },
            },
        }
        assert forall|k: int| 0 <= k < i + 1 implies (#[trigger] contribution_views(answers@)[k])
            == contribution(graph@, queries@[k], given) by {
            if k < i {
                assert(contribution_views(answers@)[k] == before[k]);
            }
        }
        i += 1;
    }
    assert(contribution_views(answers@) =~= Seq::new(
        queries@.len(),
        |i: int| contribution(graph@, queries@[i], given),
    ));
    Ok(answers)
}

/// Whether a template file is JSON, by its name; any other is YAML.
pub fn is_json_template(path: &str) -> (b: bool)
    ensures
        b == (path@.len() >= 5 && path@.skip(path@.len() - 5) == ".json"@),
{
    let v = chars_of(path);
    let n = v.len();
    proof {
        reveal_strlit(".json");
    }
    if n < 5 {
        return false;
    }
    let b = v[n - 5] == '.' && v[n - 4] == 'j' && v[n - 3] == 's' && v[n - 2] == 'o' && v[n - 1]
        == 'n';
    proof {
        let tail = v@.skip(v@.len() - 5);
        assert(tail.len() == 5);
        assert(tail[0] == v@[n - 5]);
        assert(tail[1] == v@[n - 4]);
        assert(tail[2] == v@[n - 3]);
        assert(tail[3] == v@[n - 2]);
        assert(tail[4] == v@[n - 1]);
        if b {
            assert(tail =~= ".json"@);
        }
    }
    b
}

/// Whether a file with this extension is a template file.
pub fn is_template_extension(extension: &str) -> (b: bool)
    ensures
        b == (extension@ == "yaml"@ || extension@ == "yml"@ || extension@ == "json"@),
{
    same_text(extension, "yaml") || same_text(extension, "yml") || same_text(extension, "json")
}

// ---------------------------------------------------------------------------
// Enhancement
// ---------------------------------------------------------------------------

/// The prompt that asks for a better version of `content`.
pub open spec fn enhancement_prompt(
    content: Seq<char>,
    kind: Seq<char>,
    style_guide: Option<Seq<char>>,
    word_limit: Option<usize>,
    instructions: Option<Seq<char>>,
) -> Seq<char> {
    let opening = "Please enhance and improve the following "@ + kind + " content:\n\n"@ + content;
    let styled = match style_guide {
        Some(guide) => opening + "\n\nStyle Guide: "@ + guide,
        None => opening,
    };
    let limited = match word_limit {
        Some(limit) => styled + "\n\nWord limit: "@ + decimal(limit as nat) + " words"@,
        None => styled,
    };
    let instructed = match instructions {
        Some(text) => limited + "\n\nAdditional instructions: "@ + text,
        None => limited,
    };
    instructed + "\n\nProvide the enhanced content as your response."@
}

/// The system prompt of an enhancement.
pub open spec fn editor_prompt() -> Seq<char> {
    "You are a skilled editor and writer. Your task is to enhance and improve the provided content while maintaining its core information and structure. Make the text more engaging, clear, and professional while preserving all important facts and data."@
}

/// Writes the system prompt of an enhancement.
pub fn editor_system_prompt() -> (prompt: &'static str)
    ensures
        prompt@ == editor_prompt(),
{
    "You are a skilled editor and writer. Your task is to enhance and improve the provided content while maintaining its core information and structure. Make the text more engaging, clear, and professional while preserving all important facts and data."
}

/// Writes the prompt that asks for a better version of `content`.
pub fn build_enhancement_prompt(
    content: &str,
    template: &Template,
    post_processing: &PostProcessingConfig,
) -> (prompt: String)
    ensures
        prompt@ == enhancement_prompt(
            content@,
            template.template_type.name(),
            match post_processing.style_guide {
                Some(g) => Some(g@),
                None => None,
            },
            post_processing.word_limit,
            match template.llm_instructions {
                Some(t) => Some(t@),
                None => None,
            },
        ),
{
    let mut prompt = join2(
        "Please enhance and improve the following ",
        template.template_type.to_text().as_str(),
    );
    prompt.append(" content:\n\n");
    prompt.append(content);
    match &post_processing.style_guide {
        Some(guide) => {
            prompt.append("\n\nStyle Guide: ");
            prompt.append(guide.as_str());
        },
        None => {},
    }
    match post_processing.word_limit {
        Some(limit) => {
            prompt.append("\n\nWord limit: ");
            prompt.append(decimal_text(limit).as_str());
            prompt.append(" words");
        },
        None => {},
    }
    match &template.llm_instructions {
        Some(text) => {
            prompt.append("\n\nAdditional instructions: ");
            prompt.append(text.as_str());
        },
        None => {},
    }
    prompt.append("\n\nProvide the enhanced content as your response.");
    prompt
}

// ---------------------------------------------------------------------------
// Counting words
// ---------------------------------------------------------------------------

/// Whether a word begins at index `i` of `s`: the character there is no
/// white space, and it is the first or follows white space.
pub open spec fn word_starts_at(s: Seq<char>, i: int) -> bool {
    0 <= i < s.len() && !is_white_space(s[i]) && (i == 0 || is_white_space(s[i - 1]))
}

/// The number of words in the first `n` characters of `s`, a word being a
/// longest run of characters that are no white space.
pub open spec fn words_before(s: Seq<char>, n: int) -> nat
    decreases n,
{
    if n <= 0 {
        0
    } else if word_starts_at(s, n - 1) {
        words_before(s, n - 1) + 1
    } else {
        words_before(s, n - 1)
    }
}

/// The number of words of `s`.
pub open spec fn word_count(s: Seq<char>) -> nat {
    words_before(s, s.len() as int)
}

/// There are no more words than characters.
pub proof fn lemma_words_bounded(s: Seq<char>, n: int)
    requires
        0 <= n,
    ensures
        words_before(s, n) <= n,
    decreases n,
{
    if n > 0 {
        lemma_words_bounded(s, n - 1);
    }
}

/// Counts the words of `text`.
pub fn count_words(text: &str) -> (n: usize)
    ensures
        n == word_count(text@),
{
    let v = chars_of(text);
    let mut n: usize = 0;
    let mut i: usize = 0;
    let mut after_space = true;
    while i < v.len()
        invariant
            i <= v.len(),
            n == words_before(v@, i as int),
            n <= i,
            after_space == (i == 0 || is_white_space(v@[i - 1])),
        decreases v.len() - i,
    {
        let space = char_is_white_space(v[i]);
        if !space && after_space {
            n += 1;
        }
        after_space = space;
        i += 1;
    }
    n
}

// ---------------------------------------------------------------------------
// Helpers of the template language
// ---------------------------------------------------------------------------

/// The uppercase form of a character, as `char::to_uppercase` gives it; it
/// may be more than one character long.
pub uninterp spec fn uppercase_of(c: char) -> Seq<char>;

/// The uppercase form of `c`.
///
/// Trusted: wraps `char::to_uppercase`, a fixed table lookup whose result is
/// what `uppercase_of` names.
#[verifier::external_body]
pub(crate) fn char_to_uppercase(c: char) -> (r: String)
    ensures
        r@ == uppercase_of(c),
{
    c.to_uppercase().collect()
}

/// `text` with its first character in uppercase.
pub open spec fn capitalized(text: Seq<char>) -> Seq<char> {
    if text.len() == 0 {
        text
    } else {
        uppercase_of(text[0]) + text.skip(1)
    }
}

/// Puts the first character of `text` in uppercase.
pub fn capitalize(text: &str) -> (r: String)
    ensures
        r@ == capitalized(text@),
{
    let v = chars_of(text);
    if v.len() == 0 {
        String::new()
    } else {
        let mut out = char_to_uppercase(v[0]);
        let rest = text_of_range(&v, 1, v.len());
        out.append(rest.as_str());
        out
    }
}

/// `text` cut to its first `limit` bytes of UTF-8 and followed by three
/// dots where it has more bytes than that; `text` itself where it has not.
/// A character that byte `limit` would cut in two is left out.
pub open spec fn truncated(text: Seq<char>, limit: nat) -> Seq<char> {
    if encode_utf8(text).len() > limit {
        byte_prefix(text, limit as int) + "..."@
    } else {
        text
    }
}

/// Cuts `text` to `limit` bytes.
pub fn truncate(text: &str, limit: usize) -> (r: String)
    ensures
        r@ == truncated(text@, limit as nat),
{
    if text.as_bytes().len() > limit {
        let mut out = cut_to_bytes(text, limit);
        out.append("...");
        out
    } else {
        text.to_string()
    }
}

/// Joins the items of a list.
pub fn format_list(items: &Vec<String>, separator: &str) -> (r: String)
    ensures
        r@ == joined(texts(items@), separator@),
{
    join_all(items, separator)
}

// ---------------------------------------------------------------------------
// Fields of a template
// ---------------------------------------------------------------------------

/// The index of the first `]` of `text` at or after `from`, or the length
/// of `text` when there is none.
pub open spec fn closing_from(text: Seq<char>, from: int) -> int
    decreases text.len() - from,
{
    if from < 0 || from >= text.len() {
        text.len() as int
    } else if text[from] == ']' {
        from
    } else {
        closing_from(text, from + 1)
    }
}

/// The contents of the placeholders of `text` that begin with `opener`,
/// read from index `from` on. A placeholder is the opener, at least one
/// character that is no `]`, and a `]`; its content is what stands between.
/// Reading goes from left to right, and goes on behind a placeholder.
pub open spec fn placeholders_from(text: Seq<char>, opener: Seq<char>, from: int) -> Seq<Seq<char>>
    decreases text.len() - from,
{
    if from < 0 || from >= text.len() {
        Seq::empty()
    } else if occurs_at(text, opener, from) {
        let start = from + opener.len();
        let end = closing_from(text, start);
        if start < end < text.len() {
            seq![text.subrange(start, end)] + placeholders_from(text, opener, end + 1)
        } else {
            placeholders_from(text, opener, from + 1)
        }
    } else {
        placeholders_from(text, opener, from + 1)
    }
}

/// The contents of the placeholders of `text` that begin with `opener`.
pub open spec fn placeholders(text: Seq<char>, opener: Seq<char>) -> Seq<Seq<char>> {
    placeholders_from(text, opener, 0)
}

/// How often `mark` occurs in `text` from index `from` on, occurrences that
/// overlap an earlier one not counted.
pub open spec fn occurrences_from(text: Seq<char>, mark: Seq<char>, from: int) -> nat
    decreases text.len() - from,
{
    if from < 0 || from >= text.len() || mark.len() == 0 {
        0
    } else if occurs_at(text, mark, from) {
        1 + occurrences_from(text, mark, from + mark.len())
    } else {
        occurrences_from(text, mark, from + 1)
    }
}

/// What `closing_from` finds.
pub proof fn lemma_closing_from(text: Seq<char>, from: int)
    requires
        0 <= from <= text.len(),
    ensures
        from <= closing_from(text, from) <= text.len(),
    decreases text.len() - from,
{
    if from < text.len() && text[from] != ']' {
        lemma_closing_from(text, from + 1);
    }
}

/// Whether `pattern` occurs in `text` at `at`.
fn found_at(text: &Vec<char>, pattern: &Vec<char>, at: usize) -> (r: bool)
    requires
        at <= text.len(),
    ensures
        r == occurs_at(text@, pattern@, at as int),
{
    if pattern.len() > text.len() - at {
        return false;
    }
    let mut j: usize = 0;
    while j < pattern.len()
        invariant
            j <= pattern.len(),
            at + pattern.len() <= text.len(),
            forall|k: int| 0 <= k < j ==> text@[at + k] == pattern@[k],
        decreases pattern.len() - j,
    {
        if text[at + j] != pattern[j] {
            assert(text@.subrange(at as int, at + pattern@.len())[j as int] != pattern@[j as int]);
            return false;
        }
        j += 1;
    }
    assert(text@.subrange(at as int, at + pattern@.len()) =~= pattern@);
    true
}

/// Finds the first `]` at or after `from`.
fn find_closing(text: &Vec<char>, from: usize) -> (end: usize)
    requires
        from <= text.len(),
    ensures
        end == closing_from(text@, from as int),
        from <= end <= text.len(),
{
    let mut i: usize = from;
    while i < text.len() && text[i] != ']'
        invariant
            from <= i <= text.len(),
            closing_from(text@, from as int) == closing_from(text@, i as int),
        decreases text.len() - i,
    {
        i += 1;
    }
    i
}

/// Reads the placeholders of `text` that begin with `opener`.
pub fn scan_placeholders(text: &str, opener: &str) -> (found: Vec<String>)
    ensures
        texts(found@) == placeholders(text@, opener@),
{
    let v = chars_of(text);
    let o = chars_of(opener);
    let mut found: Vec<String> = Vec::new();
    let mut i: usize = 0;
    assert(texts(found@) + placeholders_from(v@, o@, 0) =~= placeholders(v@, o@));
    while i < v.len()
        invariant
            i <= v.len(),
            v@ == text@,
            o@ == opener@,
            texts(found@) + placeholders_from(v@, o@, i as int) == placeholders(v@, o@),
        decreases v.len() - i,
    {
        let ghost before = texts(found@);
        if found_at(&v, &o, i) {
            let start = i + o.len();
            let end = find_closing(&v, start);
            if start < end && end < v.len() {
                let content = text_of_range(&v, start, end);
                found.push(content);
                assert(texts(found@) =~= before.push(v@.subrange(start as int, end as int)));
                assert(texts(found@) + placeholders_from(v@, o@, end + 1) =~= before
                    + placeholders_from(v@, o@, i as int));
                i = end + 1;
            } else {
                i += 1;
            }
        } else {
            i += 1;
        }
    }
    assert(texts(found@) + placeholders_from(v@, o@, i as int) =~= texts(found@));
    found
}

/// Counts the occurrences of `mark` in `text`.
pub fn count_occurrences(text: &str, mark: &str) -> (n: usize)
    ensures
        n == occurrences_from(text@, mark@, 0),
{
    let v = chars_of(text);
    let m = chars_of(mark);
    if m.len() == 0 {
        return 0;
    }
    let mut n: usize = 0;
    let mut i: usize = 0;
    while i < v.len()
        invariant
            i <= v.len(),
            v@ == text@,
            m@ == mark@,
            m.len() > 0,
            n <= i,
            n + occurrences_from(v@, m@, i as int) == occurrences_from(v@, m@, 0),
        decreases v.len() - i,
    {
        if found_at(&v, &m, i) {
            n += 1;
            i += m.len();
        } else {
            i += 1;
        }
    }
    n
}

/// The field for a `[FIELD: ..]` placeholder.
pub open spec fn text_field_of(content: Seq<char>) -> FieldView {
    FieldView {
        field_name: content,
        field_type: "text"@,
        description: "Text field: "@ + content,
        required: true,
    }
}

/// The field for a `[DROPDOWN: ..]` placeholder.
pub open spec fn dropdown_field_of(content: Seq<char>) -> FieldView {
    FieldView {
        field_name: "Dropdown: "@ + content,
        field_type: "dropdown"@,
        description: "Select from: "@ + content,
        required: true,
    }
}

/// The field for a `[DATE FIELD]` placeholder.
pub open spec fn date_field() -> FieldView {
    FieldView {
        field_name: "Date"@,
        field_type: "date"@,
        description: "Date field"@,
        required: false,
    }
}

/// The field for a `[CHECKLIST: ..]` placeholder.
pub open spec fn checklist_field_of(content: Seq<char>) -> FieldView {
    FieldView {
        field_name: "Checklist: "@ + content,
        field_type: "checklist"@,
        description: "Multiple selection: "@ + content,
        required: false,
    }
}

/// The field for a `[TEXT AREA: ..]` placeholder.
pub open spec fn text_area_field_of(content: Seq<char>) -> FieldView {
    FieldView {
        field_name: content,
        field_type: "textarea"@,
        description: "Long text: "@ + content,
        required: false,
    }
}

/// The fields of a template: its text fields, its dropdowns, its dates, its
/// checklists and its text areas, each kind in the order of the text.
pub open spec fn template_fields(template: Seq<char>) -> Seq<FieldView> {
    placeholders(template, "[FIELD: "@).map_values(|c: Seq<char>| text_field_of(c))
        + placeholders(template, "[DROPDOWN: "@).map_values(|c: Seq<char>| dropdown_field_of(c))
        + Seq::new(occurrences_from(template, "[DATE FIELD]"@, 0), |i: int| date_field())
        + placeholders(template, "[CHECKLIST: "@).map_values(|c: Seq<char>| checklist_field_of(c))
        + placeholders(template, "[TEXT AREA: "@).map_values(
        |c: Seq<char>| text_area_field_of(c),
    )
}

/// The kinds of placeholder with a content.
#[derive(Debug, Clone, Copy, PartialEq, Eq, Structural)]
pub enum PlaceholderKind {
    Field,
    Dropdown,
    Checklist,
    TextArea,
}

impl PlaceholderKind {
    /// The field for a placeholder of this kind.
    pub open spec fn field_of(self, content: Seq<char>) -> FieldView {
        match self {
            PlaceholderKind::Field => text_field_of(content),
            PlaceholderKind::Dropdown => dropdown_field_of(content),
            PlaceholderKind::Checklist => checklist_field_of(content),
            PlaceholderKind::TextArea => text_area_field_of(content),
        }
    }

    /// Makes the field for a placeholder of this kind.
    pub fn make_field(self, content: &str) -> (field: TemplateField)
        ensures
            field@ == self.field_of(content@),
    {
        match self {
            PlaceholderKind::Field => TemplateField {
                field_name: content.to_string(),
                field_type: "text".to_string(),
                description: join2("Text field: ", content),
                required: true,
            },
            PlaceholderKind::Dropdown => TemplateField {
                field_name: join2("Dropdown: ", content),
                field_type: "dropdown".to_string(),
                description: join2("Select from: ", content),
                required: true,
            },
            PlaceholderKind::Checklist => TemplateField {
                field_name: join2("Checklist: ", content),
                field_type: "checklist".to_string(),
                description: join2("Multiple selection: ", content),
                required: false,
            },
            PlaceholderKind::TextArea => TemplateField {
                field_name: content.to_string(),
                field_type: "textarea".to_string(),
                description: join2("Long text: ", content),
                required: false,
            },
        }
    }
}

/// Appends the fields for `contents`.
fn append_fields(fields: &mut Vec<TemplateField>, contents: &Vec<String>, kind: PlaceholderKind)
    ensures
        field_views(final(fields)@) == field_views(old(fields)@) + texts(contents@).map_values(
            |c: Seq<char>| kind.field_of(c),
        ),
{
    let ghost start = field_views(fields@);
    let ghost all = texts(contents@).map_values(|c: Seq<char>| kind.field_of(c));
    let mut i: usize = 0;
    assert(field_views(fields@) =~= start + all.take(0));
    while i < contents.len()
        invariant
            i <= contents.len(),
            all == texts(contents@).map_values(|c: Seq<char>| kind.field_of(c)),
            field_views(fields@) == start + all.take(i as int),
        decreases contents.len() - i,
    {
        let ghost before = field_views(fields@);
        let field = kind.make_field(contents[i].as_str());
        let ghost v = field@;
        fields.push(field);
        assert(field_views(fields@) =~= before.push(v));
        assert(all[i as int] == v);
        assert(start + all.take(i + 1) =~= (start + all.take(i as int)).push(v));
        i += 1;
    }
    assert(all.take(all.len() as int) == all);
}

/// Fills templates.
#[derive(Debug, Clone, Copy, PartialEq, Eq, Structural)]
pub struct TemplatePopulator;

impl TemplatePopulator {
    /// Reads the fields of a template off its placeholders.
    pub fn extract_template_fields(template: &str) -> (fields: Vec<TemplateField>)
        ensures
            field_views(fields@) == template_fields(template@),
    {
        let mut fields: Vec<TemplateField> = Vec::new();
        assert(field_views(fields@) =~= Seq::<FieldView>::empty());
        let text_fields = scan_placeholders(template, "[FIELD: ");
        append_fields(&mut fields, &text_fields, PlaceholderKind::Field);
        assert(field_views(fields@) =~= placeholders(template@, "[FIELD: "@).map_values(
            |c: Seq<char>| text_field_of(c),
        ));
        let dropdowns = scan_placeholders(template, "[DROPDOWN: ");
        let ghost s1 = field_views(fields@);
        append_fields(&mut fields, &dropdowns, PlaceholderKind::Dropdown);
        assert(field_views(fields@) =~= s1 + placeholders(template@, "[DROPDOWN: "@).map_values(
            |c: Seq<char>| dropdown_field_of(c),
        ));
        let dates = count_occurrences(template, "[DATE FIELD]");
        let ghost s2 = field_views(fields@);
        let mut d: usize = 0;
        while d < dates
            invariant
                d <= dates,
                field_views(fields@) == s2 + Seq::new(d as nat, |i: int| date_field()),
            decreases dates - d,
        {
            let ghost before = field_views(fields@);
            let field = TemplateField {
                field_name: "Date".to_string(),
                field_type: "date".to_string(),
                description: "Date field".to_string(),
                required: false,
            };
            fields.push(field);
            d += 1;
            assert(field_views(fields@) =~= before.push(date_field()));
            assert(s2 + Seq::new(d as nat, |i: int| date_field()) =~= before.push(date_field()));
        }
        let checklists = scan_placeholders(template, "[CHECKLIST: ");
        let ghost s3 = field_views(fields@);
        append_fields(&mut fields, &checklists, PlaceholderKind::Checklist);
        assert(field_views(fields@) =~= s3 + placeholders(template@, "[CHECKLIST: "@).map_values(
            |c: Seq<char>| checklist_field_of(c),
        ));
        let areas = scan_placeholders(template, "[TEXT AREA: ");
        let ghost s4 = field_views(fields@);
        append_fields(&mut fields, &areas, PlaceholderKind::TextArea);
        assert(field_views(fields@) =~= s4 + placeholders(template@, "[TEXT AREA: "@).map_values(
            |c: Seq<char>| text_area_field_of(c),
        ));
        fields
    }
}

// ---------------------------------------------------------------------------
// The prompt that fills a template
// ---------------------------------------------------------------------------

/// The bindings of a row as lines of a list.
pub open spec fn binding_lines(row: Entries) -> Seq<char>
    decreases row.len(),
{
    if row.len() == 0 {
        Seq::empty()
    } else {
        binding_lines(row.drop_last()) + "  - "@ + row.last().0 + ": "@ + row.last().1 + "\n"@
    }
}

/// The rows of a result, numbered from one.
pub open spec fn numbered_rows(rows: Seq<Entries>) -> Seq<char>
    decreases rows.len(),
{
    if rows.len() == 0 {
        Seq::empty()
    } else {
        numbered_rows(rows.drop_last()) + "Result "@ + decimal(rows.len()) + ":\n"@
            + binding_lines(rows.last())
    }
}

/// What a prompt says of one result.
pub open spec fn result_report(results: ResultsView) -> Seq<char> {
    match results {
        ResultsView::Solutions(rows) => if rows.len() == 0 {
            "No results found.\n\n"@
        } else {
            numbered_rows(rows) + "\n"@
        },
        ResultsView::Boolean(b) => "Boolean result: "@ + truth(b) + "\n\n"@,
    }
}

/// The results of queries as contracts see them, each with the id of its
/// query.
pub open spec fn answer_views(answers: Seq<(String, SimpleSparqlResults)>) -> Seq<
    (Seq<char>, ResultsView),
> {
    Seq::new(answers.len(), |i: int| (answers[i].0@, answers[i].1@))
}

/// What a prompt says of the results of the queries, in order.
pub open spec fn answers_report(answers: Seq<(Seq<char>, ResultsView)>) -> Seq<char>
    decreases answers.len(),
{
    if answers.len() == 0 {
        Seq::empty()
    } else {
        answers_report(answers.drop_last()) + "### Query: "@ + answers.last().0 + "\n"@
            + result_report(answers.last().1)
    }
}

/// The task that closes a prompt.
pub open spec fn population_task() -> Seq<char> {
    "## Task\n\n"@ + "Populate the template above with the actual data from the knowledge graph. "@
        + "Replace all placeholder fields with real values from the extracted data. "@
        + "Make the report professional and actionable.\n"@
}

/// The prompt that asks for a template to be filled: the template, the
/// results of the queries, the instructions if there are any, and the task.
pub open spec fn population_prompt(
    template: Seq<char>,
    answers: Seq<(Seq<char>, ResultsView)>,
    instructions: Option<Seq<char>>,
) -> Seq<char> {
    let data = "## Template to Populate\n\n"@ + template + "\n\n"@
        + "## Extracted Data from Knowledge Graph\n\n"@ + answers_report(answers);
    let instructed = match instructions {
        Some(text) => data + "## Additional Instructions\n\n"@ + text + "\n\n"@,
        None => data,
    };
    instructed + population_task()
}

/// The system prompt of a population.
pub open spec fn populator_prompt() -> Seq<char> {
    "You are a professional document generator specializing in sales intelligence reports.\nYour task is to populate a template with actual data from a knowledge graph.\n\nInstructions:\n1. Replace ALL placeholder fields marked with [FIELD: ...] with actual data from the provided triples\n2. For fields marked with [DROPDOWN: ...], choose the most appropriate option based on the data\n3. For fields marked with [CHECKLIST: ...], select all applicable options\n4. For fields marked with [DATE FIELD], use dates from the data or write \"Not Available\"\n5. For fields marked with [TEXT AREA: ...], write comprehensive content based on the data\n6. Maintain professional tone and formatting\n7. If data is missing for a required field, write \"Information Not Available\"\n8. Preserve the template structure and headings\n9. Add specific details from the knowledge graph data to make the report actionable\n\nReturn ONLY the completed template with all fields populated."@
}

/// Appends what a prompt says of one result.
fn append_result(prompt: &mut String, results: &SimpleSparqlResults)
    ensures
        final(prompt)@ == old(prompt)@ + result_report(results@),
{
    let ghost start = prompt@;
    match results {
        SimpleSparqlResults::Solutions(rows) => {
            if rows.len() == 0 {
                prompt.append("No results found.\n\n");
            } else {
                let ghost all = row_views(rows@);
                let mut i: usize = 0;
                assert(prompt@ =~= start + numbered_rows(all.take(0)));
                while i < rows.len()
                    invariant
                        i <= rows.len(),
                        all == row_views(rows@),
                        prompt@ == start + numbered_rows(all.take(i as int)),
                    decreases rows.len() - i,
                {
                    let ghost before = prompt@;
                    proof {
                        let next = all.take(i + 1);
                        assert(next.drop_last() == all.take(i as int));
                        assert(next.last() == rows@[i as int]@);
                        assert(next.len() == i + 1);
                    }
                    prompt.append("Result ");
                    prompt.append(decimal_text(i + 1).as_str());
                    prompt.append(":\n");
                    let row = &rows[i];
                    let ghost entries = row@;
                    let ghost head = prompt@;
                    let n = row.len();
                    let mut k: usize = 0;
                    assert(prompt@ =~= head + binding_lines(entries.take(0)));
                    while k < n
                        invariant
                            k <= n,
                            n == entries.len(),
                            entries == row@,
                            prompt@ == head + binding_lines(entries.take(k as int)),
                        decreases n - k,
                    {
                        proof {
                            let next = entries.take(k + 1);
                            assert(next.drop_last() == entries.take(k as int));
                            assert(next.last() == entries[k as int]);
                        }
                        prompt.append("  - ");
                        prompt.append(row.key_at(k).as_str());
                        prompt.append(": ");
                        prompt.append(row.value_at(k).as_str());
                        prompt.append("\n");
                        assert(prompt@ =~= head + binding_lines(entries.take(k + 1)));
                        k += 1;
                    }
                    assert(entries.take(entries.len() as int) == entries);
                    assert(prompt@ =~= start + numbered_rows(all.take(i + 1)));
                    i += 1;
                }
                assert(all.take(all.len() as int) == all);
                prompt.append("\n");
            }
        },
        SimpleSparqlResults::Boolean(b) => {
            prompt.append("Boolean result: ");
            if *b {
                prompt.append("true");
            } else {
                prompt.append("false");
            }
            prompt.append("\n\n");
            assert(prompt@ =~= start + result_report(results@));
        },
    }
}

impl TemplatePopulator {
    /// A populator.
    pub fn new() -> (populator: Self)
        ensures
            populator == TemplatePopulator,
    {
        TemplatePopulator
    }

    /// Writes the system prompt of a population.
    pub fn system_prompt() -> (prompt: &'static str)
        ensures
            prompt@ == populator_prompt(),
    {
        "You are a professional document generator specializing in sales intelligence reports.\nYour task is to populate a template with actual data from a knowledge graph.\n\nInstructions:\n1. Replace ALL placeholder fields marked with [FIELD: ...] with actual data from the provided triples\n2. For fields marked with [DROPDOWN: ...], choose the most appropriate option based on the data\n3. For fields marked with [CHECKLIST: ...], select all applicable options\n4. For fields marked with [DATE FIELD], use dates from the data or write \"Not Available\"\n5. For fields marked with [TEXT AREA: ...], write comprehensive content based on the data\n6. Maintain professional tone and formatting\n7. If data is missing for a required field, write \"Information Not Available\"\n8. Preserve the template structure and headings\n9. Add specific details from the knowledge graph data to make the report actionable\n\nReturn ONLY the completed template with all fields populated."
    }

    /// Writes the prompt that asks for `template` to be filled from the
    /// results of the queries.
    pub fn build_population_prompt(
        &self,
        template: &str,
        query_results: &Vec<(String, SimpleSparqlResults)>,
        instructions: Option<&str>,
    ) -> (prompt: String)
        ensures
            prompt@ == population_prompt(
                template@,
                answer_views(query_results@),
                match instructions {
                    Some(t) => Some(t@),
                    None => None,
                },
            ),
    {
        let ghost answers = answer_views(query_results@);
        let mut prompt = String::new();
        prompt.append("## Template to Populate\n\n");
        prompt.append(template);
        prompt.append("\n\n");
        prompt.append("## Extracted Data from Knowledge Graph\n\n");
        let ghost head = prompt@;
        let mut i: usize = 0;
        assert(prompt@ =~= head + answers_report(answers.take(0)));
        while i < query_results.len()
            invariant
                i <= query_results.len(),
                answers == answer_views(query_results@),
                prompt@ == head + answers_report(answers.take(i as int)),
            decreases query_results.len() - i,
        {
            proof {
                let next = answers.take(i + 1);
                assert(next.drop_last() == answers.take(i as int));
                assert(next.last() == answers[i as int]);
            }
            prompt.append("### Query: ");
            prompt.append(query_results[i].0.as_str());
            prompt.append("\n");
            append_result(&mut prompt, &query_results[i].1);
            assert(prompt@ =~= head + answers_report(answers.take(i + 1)));
            i += 1;
        }
        assert(answers.take(answers.len() as int) == answers);
        match instructions {
            Some(text) => {
                prompt.append("## Additional Instructions\n\n");
                prompt.append(text);
                prompt.append("\n\n");
            },
            None => {},
        }
        prompt.append("## Task\n\n");
        prompt.append(
            "Populate the template above with the actual data from the knowledge graph. ",
        );
        prompt.append("Replace all placeholder fields with real values from the extracted data. ");
        prompt.append("Make the report professional and actionable.\n");
        prompt
    }
}

// ---------------------------------------------------------------------------
// Values in the context of a template
// ---------------------------------------------------------------------------

/// What a string bound in a row is taken for.
#[derive(Debug, Clone, Copy, PartialEq, Eq, Structural)]
pub enum TypedCell {
    /// A whole number.
    Integer(i64),
    /// `true` or `false`.
    Boolean(bool),
    /// Anything else: a number with a fraction or an exponent, or a string.
    Other,
}

/// What `value` is taken for: a whole number where it writes one, a truth
/// value where it is `true` or `false`.
pub open spec fn typed(value: Seq<char>) -> TypedCell {
    match integer_of(value) {
        Some(n) => TypedCell::Integer(n),
        None => if value == "true"@ {
            TypedCell::Boolean(true)
        } else if value == "false"@ {
            TypedCell::Boolean(false)
        } else {
            TypedCell::Other
        },
    }
}

/// Decides what a string bound in a row is taken for.
pub fn typed_cell(value: &str) -> (cell: TypedCell)
    ensures
        cell == typed(value@),
{
    match parse_integer(value) {
        Some(n) => TypedCell::Integer(n),
        None => if same_text(value, "true") {
            TypedCell::Boolean(true)
        } else if same_text(value, "false") {
            TypedCell::Boolean(false)
        } else {
            TypedCell::Other
        },
    }
}

} // verus!
