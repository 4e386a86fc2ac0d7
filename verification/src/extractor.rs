//! From the answer of the text-generation service to statements: reading the
//! answer, normalising names, removing duplicates and applying the
//! validation rules of a configuration.

use vstd::prelude::*;

use crate::config::{Configuration, RdfSchema};
use crate::knowledge_graph::model::{absorb, views, Statements};
use crate::knowledge_graph::store::absorb_into;
use crate::llm_client::{join_all, joined};
use crate::text::{
    after_last, decimal, decimal_text, is_absolute, is_absolute_uri, join2, same_text, starts_with,
    suffix_after_last, texts,
};
use crate::text_map::{find_from, lookup, upsert, Entries, TextMap};
use crate::triple::{RdfTriple, TripleView, FULL_CONFIDENCE};

verus! {

// ---------------------------------------------------------------------------
// The answer of the service
// ---------------------------------------------------------------------------

/// A JSON value as the reader of an answer sees it.
#[derive(Debug)]
pub enum ResponseNode {
    /// A string.
    Text(String),
    /// A number, rounded to single precision and held as its bit pattern.
    Number(u32),
    /// An array.
    List(Vec<ResponseNode>),
    /// An object.
    Record(Vec<ResponseField>),
    /// `null`, `true` or `false`.
    Other,
}

/// A named member of an object in an answer.
#[derive(Debug)]
pub struct ResponseField {
    pub name: String,
    pub value: ResponseNode,
}

/// The first member of `fields` at or after `from` that is named `name`.
pub open spec fn field_from(fields: Seq<ResponseField>, name: Seq<char>, from: int) -> Option<
    ResponseNode,
>
    decreases fields.len() - from,
{
    if from < 0 || from >= fields.len() {
        None
    } else if fields[from].name@ == name {
        Some(fields[from].value)
    } else {
        field_from(fields, name, from + 1)
    }
}

/// The member of `fields` named `name`.
pub open spec fn field(fields: Seq<ResponseField>, name: Seq<char>) -> Option<ResponseNode> {
    field_from(fields, name, 0)
}

/// The string that `fields` holds under `name`; the empty string where there
/// is no such member or it is no string.
pub open spec fn text_field(fields: Seq<ResponseField>, name: Seq<char>) -> Seq<char> {
    match field(fields, name) {
        Some(ResponseNode::Text(s)) => s@,
        _ => Seq::empty(),
    }
}

/// The confidence that `fields` states: the number under `confidence`, and
/// full confidence where there is none.
pub open spec fn stated_confidence(fields: Seq<ResponseField>) -> u32 {
    match field(fields, "confidence"@) {
        Some(ResponseNode::Number(bits)) => bits,
        _ => FULL_CONFIDENCE,
    }
}

/// `name` as an absolute URI: itself where it is one, and `base` followed by
/// it where it is not.
pub open spec fn absolute_in(base: Seq<char>, name: Seq<char>) -> Seq<char> {
    if is_absolute_uri(name) {
        name
    } else {
        base + name
    }
}

/// The statement that one item of an answer stands for: an object with a
/// subject, a predicate and an object, all of them non-empty strings. The
/// subject is taken within the base URI of the schema, the predicate within
/// its namespace, and the statement is attributed to `source`.
pub open spec fn statement_of(item: ResponseNode, schema: RdfSchema, source: Seq<char>) -> Option<
    TripleView,
> {
    match item {
        ResponseNode::Record(fields) => {
            let subject = text_field(fields@, "subject"@);
            let predicate = text_field(fields@, "predicate"@);
            let object = text_field(fields@, "object"@);
            if subject.len() > 0 && predicate.len() > 0 && object.len() > 0 {
                Some(
                    TripleView {
                        subject: absolute_in(schema.base_uri@, subject),
                        predicate: absolute_in(schema.namespace@, predicate),
                        object,
                        confidence_bits: stated_confidence(fields@),
                        source: Some(source),
                        metadata: Entries::empty(),
                    },
                )
            } else {
                None
            }
        },
        _ => None,
    }
}

/// The statements that the items of an answer stand for, in order.
pub open spec fn statements_of(items: Seq<ResponseNode>, schema: RdfSchema, source: Seq<char>) -> Statements
    decreases items.len(),
{
    if items.len() == 0 {
        Seq::empty()
    } else {
        match statement_of(items.last(), schema, source) {
            Some(t) => statements_of(items.drop_last(), schema, source).push(t),
            None => statements_of(items.drop_last(), schema, source),
        }
    }
}

/// What an answer holds: the statements of its items where it is an array,
/// those of its member `triples` where it is an object with such an array,
/// and nothing where it is anything else. An object whose member `triples`
/// is no array is a fault.
pub open spec fn answer_statements(response: ResponseNode, schema: RdfSchema, source: Seq<char>) -> Option<
    Statements,
> {
    match response {
        ResponseNode::List(items) => Some(statements_of(items@, schema, source)),
        ResponseNode::Record(fields) => match field(fields@, "triples"@) {
            Some(ResponseNode::List(items)) => Some(statements_of(items@, schema, source)),
            Some(_) => None,
            None => Some(Seq::empty()),
        },
        _ => Some(Seq::empty()),
    }
}

/// Why an answer could not be read.
#[derive(Debug, Clone, Copy, PartialEq, Eq, Structural)]
pub enum ExtractionError {
    /// The member `triples` of the answer is no array.
    TriplesNotAnArray,
    /// There is nothing to merge.
    NothingToMerge,
}

impl ExtractionError {
    /// The error as a sentence.
    pub fn message(&self) -> (text: String)
        ensures
            text@ == match self {
                ExtractionError::TriplesNotAnArray => "'triples' field is not an array"@,
                ExtractionError::NothingToMerge => "Cannot merge empty results"@,
            },
    {
        match self {
            ExtractionError::TriplesNotAnArray => "'triples' field is not an array".to_string(),
            ExtractionError::NothingToMerge => "Cannot merge empty results".to_string(),
        }
    }
}

/// Finds the member named `name`.
pub fn find_field<'a>(fields: &'a Vec<ResponseField>, name: &str) -> (found: Option<&'a ResponseNode>)
    ensures
        match found {
            Some(node) => field(fields@, name@) == Some(*node),
            None => field(fields@, name@) is None,
        },
{
    let mut i: usize = 0;
    while i < fields.len()
        invariant
            i <= fields.len(),
            field(fields@, name@) == field_from(fields@, name@, i as int),
        decreases fields.len() - i,
    {
        if same_text(fields[i].name.as_str(), name) {
            return Some(&fields[i].value);
        }
        i += 1;
    }
    None
}

/// Reads the string under `name`.
fn read_text(fields: &Vec<ResponseField>, name: &str) -> (r: String)
    ensures
        r@ == text_field(fields@, name@),
{
    match find_field(fields, name) {
        Some(ResponseNode::Text(s)) => s.clone(),
        _ => String::new(),
    }
}

// ---------------------------------------------------------------------------
// Validation rules
// ---------------------------------------------------------------------------

/// The local name of a predicate: what follows its last `/`, and of that
/// what follows the last `#`.
pub open spec fn local_name(predicate: Seq<char>) -> Seq<char> {
    after_last(after_last(predicate, '/'), '#')
}

/// Whether the statement `t` passes the rule `rule`. The rule
/// `require_valid_uri` asks that the subject begin with `http`; the rule
/// `require_known_predicates` asks that the schema know the local name of
/// the predicate; any other rule asks nothing.
pub open spec fn passes(t: TripleView, rule: Seq<char>, schema: RdfSchema) -> bool {
    if rule == "require_valid_uri"@ {
        "http"@.is_prefix_of(t.subject)
    } else if rule == "require_known_predicates"@ {
        lookup(schema.predicates@, local_name(t.predicate)).is_some()
    } else {
        true
    }
}

/// Whether `t` passes the rules from index `from` on.
pub open spec fn passes_from(t: TripleView, rules: Seq<Seq<char>>, schema: RdfSchema, from: int) -> bool
    decreases rules.len() - from,
{
    if from < 0 || from >= rules.len() {
        true
    } else {
        passes(t, rules[from], schema) && passes_from(t, rules, schema, from + 1)
    }
}

/// Whether `t` passes every rule.
pub open spec fn passes_all(t: TripleView, rules: Seq<Seq<char>>, schema: RdfSchema) -> bool {
    passes_from(t, rules, schema, 0)
}

/// The statements of `s` that pass every rule, in order.
pub open spec fn valid_statements(s: Statements, rules: Seq<Seq<char>>, schema: RdfSchema) -> Statements
    decreases s.len(),
{
    if s.len() == 0 {
        Seq::empty()
    } else if passes_all(s.last(), rules, schema) {
        valid_statements(s.drop_last(), rules, schema).push(s.last())
    } else {
        valid_statements(s.drop_last(), rules, schema)
    }
}

/// `s` without the statements whose identity occurs earlier.
pub open spec fn without_duplicates(s: Statements) -> Statements {
    absorb(Statements::empty(), s)
}

/// What post-processing makes of `s`: duplicates are removed where the
/// configuration asks for it, and then the statements that fail a validation
/// rule are removed.
pub open spec fn post_processed(s: Statements, config: Configuration) -> Statements {
    let unique = if config.post_processing.deduplicate {
        without_duplicates(s)
    } else {
        s
    };
    if config.validation_rules@.len() == 0 {
        unique
    } else {
        valid_statements(unique, texts(config.validation_rules@), config.rdf_schema)
    }
}

// ---------------------------------------------------------------------------
// Results
// ---------------------------------------------------------------------------

/// What one extraction produced. `extraction_timestamp` is the time of the
/// extraction as RFC 3339 text; `processing_time_bits` is the time it took,
/// in seconds, as the bit pattern of a double-precision number.
#[derive(Debug)]
pub struct ExtractionResult {
    pub id: String,
    pub triples: Vec<RdfTriple>,
    pub document_source: String,
    pub extraction_timestamp: String,
    pub processing_time_bits: u64,
    pub metadata: TextMap,
    pub errors: Vec<String>,
    pub config_name: String,
}

impl ExtractionResult {
    /// A result without statements, metadata or errors. The id and the
    /// timestamp are the caller's: a fresh identifier and the current time.
    pub fn new(
        id: String,
        extraction_timestamp: String,
        document_source: String,
        config_name: String,
        processing_time_bits: u64,
    ) -> (r: Self)
        ensures
            r.id == id,
            r.extraction_timestamp == extraction_timestamp,
            r.document_source == document_source,
            r.config_name == config_name,
            r.processing_time_bits == processing_time_bits,
            r.triples@.len() == 0,
            r.errors@.len() == 0,
            r.metadata@.len() == 0,
    {
        ExtractionResult {
            id,
            triples: Vec::new(),
            document_source,
            extraction_timestamp,
            processing_time_bits,
            metadata: TextMap::new(),
            errors: Vec::new(),
            config_name,
        }
    }

    /// The same result with `triples` as its statements.
    pub fn with_triples(self, triples: Vec<RdfTriple>) -> (r: Self)
        ensures
            r == (ExtractionResult { triples, ..self }),
    {
        let mut r = self;
        r.triples = triples;
        r
    }

    /// The same result with one more error.
    pub fn with_error(self, error: String) -> (r: Self)
        ensures
            r.errors@ == self.errors@.push(error),
            r.id == self.id,
            r.triples == self.triples,
            r.document_source == self.document_source,
            r.extraction_timestamp == self.extraction_timestamp,
            r.processing_time_bits == self.processing_time_bits,
            r.metadata == self.metadata,
            r.config_name == self.config_name,
    {
        let mut r = self;
        r.errors.push(error);
        r
    }

    /// The same result with `metadata` as its metadata.
    pub fn with_metadata(self, metadata: TextMap) -> (r: Self)
        ensures
            r == (ExtractionResult { metadata, ..self }),
    {
        let mut r = self;
        r.metadata = metadata;
        r
    }
}

/// The statements of `results`, result after result.
pub open spec fn all_statements(results: Seq<ExtractionResult>) -> Statements
    decreases results.len(),
{
    if results.len() == 0 {
        Seq::empty()
    } else {
        all_statements(results.drop_last()) + views(results.last().triples@)
    }
}

/// The sources of `results`, in order.
pub open spec fn all_sources(results: Seq<ExtractionResult>) -> Seq<Seq<char>> {
    Seq::new(results.len(), |i: int| results[i].document_source@)
}

/// The statements of a merged result: all statements, without duplicates
/// where `deduplicate` is set.
pub open spec fn merged_statements(results: Seq<ExtractionResult>, deduplicate: bool) -> Statements {
    if deduplicate {
        without_duplicates(all_statements(results))
    } else {
        all_statements(results)
    }
}

/// The metadata of a merged result: how many results were merged, their
/// sources, and how many statements are left.
pub open spec fn merged_metadata(results: Seq<ExtractionResult>, deduplicate: bool) -> Entries {
    seq![
        ("source_count"@, decimal(results.len())),
        ("sources"@, joined(all_sources(results), ", "@)),
        ("total_triples"@, decimal(merged_statements(results, deduplicate).len())),
    ]
}

// ---------------------------------------------------------------------------
// The extractor
// ---------------------------------------------------------------------------

/// Turns answers of the service into statements, as a configuration asks.
#[derive(Debug)]
pub struct RdfExtractor {
    pub config: Configuration,
}

/// Copies statements.
fn copy_statements(triples: &Vec<RdfTriple>) -> (copy: Vec<RdfTriple>)
    ensures
        views(copy@) == views(triples@),
{
    let mut copy: Vec<RdfTriple> = Vec::new();
    let mut i: usize = 0;
    while i < triples.len()
        invariant
            i <= triples.len(),
            copy.len() == i,
            forall|k: int| 0 <= k < i ==> (#[trigger] copy@[k])@ == triples@[k]@,
        decreases triples.len() - i,
    {
        copy.push(triples[i].clone());
        i += 1;
    }
    assert(views(copy@) =~= views(triples@));
    copy
}

impl RdfExtractor {
    /// An extractor for `config`.
    pub fn new(config: Configuration) -> (extractor: Self)
        ensures
            extractor.config == config,
    {
        RdfExtractor { config }
    }

    /// A subject as an absolute URI, within the base URI of the schema.
    pub fn normalize_uri(&self, uri: String) -> (r: String)
        ensures
            r@ == absolute_in(self.config.rdf_schema.base_uri@, uri@),
    {
        if is_absolute(uri.as_str()) {
            uri
        } else {
            join2(self.config.rdf_schema.base_uri.as_str(), uri.as_str())
        }
    }

    /// A predicate as an absolute URI, within the namespace of the schema.
    pub fn normalize_predicate(&self, predicate: String) -> (r: String)
        ensures
            r@ == absolute_in(self.config.rdf_schema.namespace@, predicate@),
    {
        if is_absolute(predicate.as_str()) {
            predicate
        } else {
            join2(self.config.rdf_schema.namespace.as_str(), predicate.as_str())
        }
    }

    /// Reads one item of an answer.
    fn read_item(&self, item: &ResponseNode, source: &str) -> (r: Option<RdfTriple>)
        ensures
            match r {
                Some(t) => statement_of(*item, self.config.rdf_schema, source@) == Some(t@),
                None => statement_of(*item, self.config.rdf_schema, source@) is None,
            },
    {
        match item {
            ResponseNode::Record(fields) => {
                let subject = read_text(fields, "subject");
                let predicate = read_text(fields, "predicate");
                let object = read_text(fields, "object");
                if !subject.as_str().is_empty() && !predicate.as_str().is_empty()
                    && !object.as_str().is_empty() {
                    let triple = RdfTriple::new(
                        self.normalize_uri(subject),
                        self.normalize_predicate(predicate),
                        object,
                    ).with_source(source.to_string());
                    match find_field(fields, "confidence") {
                        Some(ResponseNode::Number(bits)) => Some(triple.with_confidence(*bits)),
                        _ => Some(triple),
                    }
                } else {
                    None
                }
            },
            _ => None,
        }
    }

    /// Reads the items of an answer.
    fn read_items(&self, items: &Vec<ResponseNode>, source: &str) -> (triples: Vec<RdfTriple>)
        ensures
            views(triples@) == statements_of(items@, self.config.rdf_schema, source@),
    {
        let mut triples: Vec<RdfTriple> = Vec::new();
        let mut i: usize = 0;
        assert(views(triples@) =~= statements_of(items@.take(0), self.config.rdf_schema, source@));
        while i < items.len()
            invariant
                i <= items.len(),
                views(triples@) == statements_of(
                    items@.take(i as int),
                    self.config.rdf_schema,
                    source@,
                ),
            decreases items.len() - i,
        {
            let ghost before = views(triples@);
            proof {
                let next = items@.take(i + 1);
                assert(next.drop_last() == items@.take(i as int));
                assert(next.last() == items@[i as int]);
            }
            match self.read_item(&items[i], source) {
                Some(t) => {
                    let ghost v = t@;
                    triples.push(t);
                    assert(views(triples@) =~= before.push(v));
                },
                None => {},
            }
            i += 1;
        }
        assert(items@.take(items@.len() as int) == items@);
        triples
    }

    /// Reads the statements of an answer and attributes them to `source`.
    pub fn parse_llm_response(&self, response: &ResponseNode, source: &str) -> (r: Result<
        Vec<RdfTriple>,
        ExtractionError,
    >)
        ensures
            match r {
                Ok(triples) => answer_statements(*response, self.config.rdf_schema, source@)
                    == Some(views(triples@)),
                Err(e) => e == ExtractionError::TriplesNotAnArray && answer_statements(
                    *response,
                    self.config.rdf_schema,
                    source@,
                ) is None,
            },
    {
        match response {
            ResponseNode::List(items) => Ok(self.read_items(items, source)),
            ResponseNode::Record(fields) => match find_field(fields, "triples") {
                Some(ResponseNode::List(items)) => Ok(self.read_items(items, source)),
                Some(_) => Err(ExtractionError::TriplesNotAnArray),
                None => {
                    let triples: Vec<RdfTriple> = Vec::new();
                    assert(views(triples@) =~= Statements::empty());
                    Ok(triples)
                },
            },
            _ => {
                let triples: Vec<RdfTriple> = Vec::new();
                assert(views(triples@) =~= Statements::empty());
                Ok(triples)
            },
        }
    }

    /// Removes the statements whose identity occurs earlier.
    pub fn deduplicate_triples(&self, triples: Vec<RdfTriple>) -> (unique: Vec<RdfTriple>)
        ensures
            views(unique@) == without_duplicates(views(triples@)),
    {
        let mut unique: Vec<RdfTriple> = Vec::new();
        assert(views(unique@) =~= Statements::empty());
        absorb_into(&mut unique, triples.as_slice());
        unique
    }

    /// Decides whether `t` passes every validation rule.
    pub fn is_valid(&self, t: &RdfTriple) -> (valid: bool)
        ensures
            valid == passes_all(t@, texts(self.config.validation_rules@), self.config.rdf_schema),
    {
        let rules = &self.config.validation_rules;
        let ghost names = texts(rules@);
        let mut i: usize = 0;
        while i < rules.len()
            invariant
                i <= rules.len(),
                rules == &self.config.validation_rules,
                names == texts(rules@),
                passes_all(t@, names, self.config.rdf_schema) == passes_from(
                    t@,
                    names,
                    self.config.rdf_schema,
                    i as int,
                ),
            decreases rules.len() - i,
        {
            assert(names[i as int] == rules@[i as int]@);
            if same_text(rules[i].as_str(), "require_valid_uri") {
                if !starts_with(t.subject.as_str(), "http") {
                    return false;
                }
            } else if same_text(rules[i].as_str(), "require_known_predicates") {
                let last_segment = suffix_after_last(t.predicate.as_str(), '/');
                let name = suffix_after_last(last_segment.as_str(), '#');
                if !self.config.rdf_schema.predicates.contains_key(name.as_str()) {
                    return false;
                }
            }
            i += 1;
        }
        true
    }

    /// Removes the statements that fail a validation rule.
    pub fn apply_validation_rules(&self, triples: Vec<RdfTriple>) -> (valid: Vec<RdfTriple>)
        ensures
            views(valid@) == valid_statements(
                views(triples@),
                texts(self.config.validation_rules@),
                self.config.rdf_schema,
            ),
    {
        let ghost s = views(triples@);
        let ghost rules = texts(self.config.validation_rules@);
        let mut valid: Vec<RdfTriple> = Vec::new();
        let mut i: usize = 0;
        assert(views(valid@) =~= valid_statements(s.take(0), rules, self.config.rdf_schema));
        while i < triples.len()
            invariant
                i <= triples.len(),
                s == views(triples@),
                rules == texts(self.config.validation_rules@),
                views(valid@) == valid_statements(s.take(i as int), rules, self.config.rdf_schema),
            decreases triples.len() - i,
        {
            let ghost before = views(valid@);
            proof {
                let next = s.take(i + 1);
                assert(next.drop_last() == s.take(i as int));
                assert(next.last() == triples@[i as int]@);
            }
            if self.is_valid(&triples[i]) {
                valid.push(triples[i].clone());
                assert(views(valid@) =~= before.push(triples@[i as int]@));
            }
            i += 1;
        }
        assert(s.take(triples@.len() as int) == s);
        valid
    }

    /// Removes duplicates where the configuration asks for it, and then the
    /// statements that fail a validation rule.
    pub fn post_process_triples(&self, triples: Vec<RdfTriple>) -> (processed: Vec<RdfTriple>)
        ensures
            views(processed@) == post_processed(views(triples@), self.config),
    {
        let unique = if self.config.post_processing.deduplicate {
            self.deduplicate_triples(triples)
        } else {
            triples
        };
        if self.config.validation_rules.len() > 0 {
            self.apply_validation_rules(unique)
        } else {
            unique
        }
    }

    /// The result for a document that could not be read: no statement, and
    /// the reason as its one error.
    pub fn document_failure(
        &self,
        id: String,
        extraction_timestamp: String,
        source: &str,
        detail: &str,
        processing_time_bits: u64,
    ) -> (r: ExtractionResult)
        ensures
            r.id == id,
            r.extraction_timestamp == extraction_timestamp,
            r.document_source@ == source@,
            r.config_name@ == self.config.name@,
            r.processing_time_bits == processing_time_bits,
            r.triples@.len() == 0,
            r.metadata@.len() == 0,
            texts(r.errors@) == seq!["Failed to process document: "@ + detail@],
    {
        let r = ExtractionResult::new(
            id,
            extraction_timestamp,
            source.to_string(),
            self.config.name.clone(),
            processing_time_bits,
        ).with_error(join2("Failed to process document: ", detail));
        assert(texts(r.errors@) =~= seq!["Failed to process document: "@ + detail@]);
        r
    }

    /// The result for a document that the service did not answer for: no
    /// statement, and the reason as its one error.
    pub fn generation_failure(
        &self,
        id: String,
        extraction_timestamp: String,
        source: &str,
        detail: &str,
        processing_time_bits: u64,
    ) -> (r: ExtractionResult)
        ensures
            r.id == id,
            r.extraction_timestamp == extraction_timestamp,
            r.document_source@ == source@,
            r.config_name@ == self.config.name@,
            r.processing_time_bits == processing_time_bits,
            r.triples@.len() == 0,
            r.metadata@.len() == 0,
            texts(r.errors@) == seq!["LLM extraction failed: "@ + detail@],
    {
        let r = ExtractionResult::new(
            id,
            extraction_timestamp,
            source.to_string(),
            self.config.name.clone(),
            processing_time_bits,
        ).with_error(join2("LLM extraction failed: ", detail));
        assert(texts(r.errors@) =~= seq!["LLM extraction failed: "@ + detail@]);
        r
    }

    /// The result for a document that was read and answered for: the
    /// statements of the answer after post-processing, and the metadata of
    /// the document with the name of the configuration, the model and the
    /// number of questions added.
    pub fn complete_extraction(
        &self,
        id: String,
        extraction_timestamp: String,
        source: &str,
        document_metadata: TextMap,
        model: &str,
        response: &ResponseNode,
        processing_time_bits: u64,
    ) -> (r: Result<ExtractionResult, ExtractionError>)
        ensures
            r is Ok <==> answer_statements(*response, self.config.rdf_schema, source@) is Some,
            r is Err ==> r->Err_0 == ExtractionError::TriplesNotAnArray,
            r is Ok ==> {
                let done = r->Ok_0;
                &&& done.id == id
                &&& done.extraction_timestamp == extraction_timestamp
                &&& done.document_source@ == source@
                &&& done.config_name@ == self.config.name@
                &&& done.processing_time_bits == processing_time_bits
                &&& done.errors@.len() == 0
                &&& views(done.triples@) == post_processed(
                    answer_statements(*response, self.config.rdf_schema, source@)->0,
                    self.config,
                )
                &&& done.metadata@ == upsert(
                    upsert(
                        upsert(document_metadata@, "extraction_config"@, self.config.name@),
                        "llm_model"@,
                        model@,
                    ),
                    "num_questions"@,
                    decimal(self.config.extraction_questions@.len()),
                )
            },
    {
        let triples = match self.parse_llm_response(response, source) {
            Ok(triples) => triples,
            Err(e) => {
                return Err(e);
            },
        };
        let processed = self.post_process_triples(triples);
        let mut metadata = document_metadata;
        metadata.insert("extraction_config".to_string(), self.config.name.clone());
        metadata.insert("llm_model".to_string(), model.to_string());
        metadata.insert(
            "num_questions".to_string(),
            decimal_text(self.config.extraction_questions.len()),
        );
        Ok(
            ExtractionResult::new(
                id,
                extraction_timestamp,
                source.to_string(),
                self.config.name.clone(),
                processing_time_bits,
            ).with_triples(processed).with_metadata(metadata),
        )
    }

    /// Merges the results of several documents into one, named `merged`:
    /// their statements, without duplicates where the configuration asks for
    /// it, and metadata that counts them. The id, the timestamp and the
    /// total time are the caller's. Errors of the results are not carried
    /// over. With nothing to merge the answer is an error.
    pub fn merge_results(
        &self,
        results: Vec<ExtractionResult>,
        id: String,
        extraction_timestamp: String,
        total_time_bits: u64,
    ) -> (r: Result<ExtractionResult, ExtractionError>)
        ensures
            results@.len() == 0 <==> r is Err,
            r is Err ==> r->Err_0 == ExtractionError::NothingToMerge,
            r is Ok ==> {
                let merged = r->Ok_0;
                &&& merged.id == id
                &&& merged.extraction_timestamp == extraction_timestamp
                &&& merged.processing_time_bits == total_time_bits
                &&& merged.document_source@ == "merged"@
                &&& merged.config_name@ == self.config.name@
                &&& merged.errors@.len() == 0
                &&& views(merged.triples@) == merged_statements(
                    results@,
                    self.config.post_processing.deduplicate,
                )
                &&& merged.metadata@ == merged_metadata(
                    results@,
                    self.config.post_processing.deduplicate,
                )
            },
    {
        if results.len() == 0 {
            return Err(ExtractionError::NothingToMerge);
        }
        let mut all_triples: Vec<RdfTriple> = Vec::new();
        let mut sources: Vec<String> = Vec::new();
        let mut i: usize = 0;
        assert(views(all_triples@) =~= all_statements(results@.take(0)));
        while i < results.len()
            invariant
                i <= results.len(),
                sources.len() == i,
                forall|k: int| 0 <= k < i ==> (#[trigger] sources@[k])@ == results@[k].document_source@,
                views(all_triples@) == all_statements(results@.take(i as int)),
            decreases results.len() - i,
        {
            let ghost before = views(all_triples@);
            proof {
                let next = results@.take(i + 1);
                assert(next.drop_last() == results@.take(i as int));
                assert(next.last() == results@[i as int]);
            }
            let mut copy = copy_statements(&results[i].triples);
            let ghost added = views(copy@);
            all_triples.append(&mut copy);
            assert(views(all_triples@) =~= before + added);
            sources.push(results[i].document_source.clone());
            i += 1;
        }
        assert(results@.take(results@.len() as int) == results@);
        assert(texts(sources@) =~= all_sources(results@));
        if self.config.post_processing.deduplicate {
            all_triples = self.deduplicate_triples(all_triples);
        }
        let mut metadata = TextMap::new();
        proof {
            reveal_with_fuel(find_from, 4);
            reveal_strlit("source_count");
            reveal_strlit("sources");
            reveal_strlit("total_triples");
            assert("source_count"@.len() != "sources"@.len());
            assert("source_count"@[0] != "total_triples"@[0]);
            assert("sources"@[0] != "total_triples"@[0]);
        }
        metadata.insert("source_count".to_string(), decimal_text(results.len()));
        metadata.insert("sources".to_string(), join_all(&sources, ", "));
        metadata.insert("total_triples".to_string(), decimal_text(all_triples.len()));
        assert(metadata@ =~= merged_metadata(results@, self.config.post_processing.deduplicate));
        Ok(
            ExtractionResult::new(
                id,
                extraction_timestamp,
                "merged".to_string(),
                self.config.name.clone(),
                total_time_bits,
            ).with_triples(all_triples).with_metadata(metadata),
        )
    }
}

} // verus!
