//! Text encodings of a sequence of statements: Turtle, N-Triples, JSON-LD
//! and RDF/XML, and a check of statements before they are encoded.
//!
//! Each encoding is a function of the statements, the namespace and its
//! prefix. Where statements are grouped by subject, the subjects come in the
//! order in which they first occur, and the statements of a subject keep
//! their order.

use vstd::prelude::*;

use crate::config::OutputFormat;
use crate::json::{
    list_model, list_of, members_model, object_of, pretty_json, put_member, render_pretty,
    set_member, text_value, written, JsonMember, JsonModel, JsonValue,
};
use crate::knowledge_graph::model::{views, Statements};
use crate::text::{
    after_last, char_count, contains_text, decimal, decimal_text, escape_xml_text, is_absolute,
    is_absolute_uri, join2, same_text, starts_with, suffix_after_last, texts, without_prefix,
};
use crate::triple::{format_object_term, object_term, RdfTriple, TripleView};

verus! {

// ---------------------------------------------------------------------------
// Shared vocabulary
// ---------------------------------------------------------------------------

/// `uri` as `prefix:local` where it lies in `namespace`.
pub open spec fn prefixed_name(uri: Seq<char>, namespace: Seq<char>, prefix: Seq<char>) -> Seq<char> {
    prefix + ":"@ + uri.skip(namespace.len() as int)
}

/// The strings of `values` without repetitions, each at the place where it
/// first occurs.
pub open spec fn first_seen(values: Seq<Seq<char>>) -> Seq<Seq<char>>
    decreases values.len(),
{
    if values.len() == 0 {
        Seq::empty()
    } else if first_seen(values.drop_last()).contains(values.last()) {
        first_seen(values.drop_last())
    } else {
        first_seen(values.drop_last()).push(values.last())
    }
}

/// What `first_seen` keeps: every string of `values`, once, and no other.
pub proof fn lemma_first_seen(values: Seq<Seq<char>>)
    ensures
        first_seen(values).no_duplicates(),
        forall|v: Seq<char>| first_seen(values).contains(v) <==> values.contains(v),
        first_seen(values).len() <= values.len(),
    decreases values.len(),
{
    if values.len() > 0 {
        let init = values.drop_last();
        let last = values.last();
        let kept = first_seen(init);
        let all = first_seen(values);
        lemma_first_seen(init);
        assert(values[values.len() - 1] == last);
        assert forall|v: Seq<char>| all.contains(v) <==> values.contains(v) by {
            if all.contains(v) {
                let i = choose|i: int| 0 <= i < all.len() && all[i] == v;
                if i < kept.len() {
                    assert(kept[i] == v);
                    assert(init.contains(v));
                    let j = choose|j: int| 0 <= j < init.len() && init[j] == v;
                    assert(values[j] == v);
                }
            }
            if values.contains(v) {
                let j = choose|j: int| 0 <= j < values.len() && values[j] == v;
                if j < init.len() {
                    assert(init[j] == v);
                    assert(init.contains(v));
                    assert(kept.contains(v));
                    let i = choose|i: int| 0 <= i < kept.len() && kept[i] == v;
                    assert(all[i] == v);
                } else {
                    if kept.contains(last) {
                    } else {
                        assert(all[kept.len() as int] == last);
                    }
                }
            }
        }
    }
}

/// The subjects of `s` without repetitions, in the order in which they first
/// occur.
pub open spec fn subjects_in_order(s: Statements) -> Seq<Seq<char>> {
    first_seen(Seq::new(s.len(), |i: int| s[i].subject))
}

// ---------------------------------------------------------------------------
// Turtle
// ---------------------------------------------------------------------------

/// A subject or predicate as Turtle writes it: `prefix:local` where it
/// begins with the namespace, between angle brackets where it does not.
pub open spec fn turtle_name(uri: Seq<char>, namespace: Seq<char>, prefix: Seq<char>) -> Seq<char> {
    if namespace.is_prefix_of(uri) {
        prefixed_name(uri, namespace, prefix)
    } else {
        "<"@ + uri + ">"@
    }
}

/// The prefix declarations that open a Turtle document.
pub open spec fn turtle_header(namespace: Seq<char>, prefix: Seq<char>) -> Seq<char> {
    "@prefix "@ + prefix + ": <"@ + namespace + "> .\n"@
        + "@prefix rdf: <http://www.w3.org/1999/02/22-rdf-syntax-ns#> .\n"@
        + "@prefix rdfs: <http://www.w3.org/2000/01/rdf-schema#> .\n\n"@
}

/// One statement as a line of Turtle.
pub open spec fn turtle_line(t: TripleView, namespace: Seq<char>, prefix: Seq<char>) -> Seq<char> {
    turtle_name(t.subject, namespace, prefix) + " "@ + turtle_name(t.predicate, namespace, prefix)
        + " "@ + object_term(t.object) + " .\n"@
}

/// The statements of `s` as lines of Turtle.
pub open spec fn turtle_lines(s: Statements, namespace: Seq<char>, prefix: Seq<char>) -> Seq<char>
    decreases s.len(),
{
    if s.len() == 0 {
        Seq::empty()
    } else {
        turtle_lines(s.drop_last(), namespace, prefix) + turtle_line(s.last(), namespace, prefix)
    }
}

/// `s` as a Turtle document.
pub open spec fn turtle_document(s: Statements, namespace: Seq<char>, prefix: Seq<char>) -> Seq<
    char,
> {
    turtle_header(namespace, prefix) + turtle_lines(s, namespace, prefix)
}

// ---------------------------------------------------------------------------
// N-Triples
// ---------------------------------------------------------------------------

/// `s` as an N-Triples document: one line for each statement, nothing else.
pub open spec fn ntriples_document(s: Statements) -> Seq<char>
    decreases s.len(),
{
    if s.len() == 0 {
        Seq::empty()
    } else {
        ntriples_document(s.drop_last()) + s.last().ntriple() + "\n"@
    }
}

// ---------------------------------------------------------------------------
// RDF/XML
// ---------------------------------------------------------------------------

/// The name of the element that stands for a predicate: `prefix:local` where
/// the predicate begins with the namespace, and what follows its last `#`
/// where it does not.
pub open spec fn xml_element_name(predicate: Seq<char>, namespace: Seq<char>, prefix: Seq<char>) -> Seq<
    char,
> {
    if namespace.is_prefix_of(predicate) {
        prefixed_name(predicate, namespace, prefix)
    } else {
        after_last(predicate, '#')
    }
}

/// One statement as an element inside the description of its subject.
pub open spec fn xml_element(t: TripleView, namespace: Seq<char>, prefix: Seq<char>) -> Seq<char> {
    let name = xml_element_name(t.predicate, namespace, prefix);
    if is_absolute_uri(t.object) {
        "    <"@ + name + " rdf:resource=\""@ + t.object + "\"/>\n"@
    } else {
        "    <"@ + name + ">"@ + escape_xml_text(t.object) + "</"@ + name + ">\n"@
    }
}

/// The statements of `s` about `subject` as elements, in order.
pub open spec fn xml_elements(
    s: Statements,
    subject: Seq<char>,
    namespace: Seq<char>,
    prefix: Seq<char>,
) -> Seq<char>
    decreases s.len(),
{
    if s.len() == 0 {
        Seq::empty()
    } else if s.last().subject == subject {
        xml_elements(s.drop_last(), subject, namespace, prefix) + xml_element(
            s.last(),
            namespace,
            prefix,
        )
    } else {
        xml_elements(s.drop_last(), subject, namespace, prefix)
    }
}

/// The description of one subject.
pub open spec fn xml_description(
    s: Statements,
    subject: Seq<char>,
    namespace: Seq<char>,
    prefix: Seq<char>,
) -> Seq<char> {
    "  <rdf:Description rdf:about=\""@ + subject + "\">\n"@ + xml_elements(
        s,
        subject,
        namespace,
        prefix,
    ) + "  </rdf:Description>\n"@
}

/// The descriptions of `subjects`, in order.
pub open spec fn xml_descriptions(
    s: Statements,
    subjects: Seq<Seq<char>>,
    namespace: Seq<char>,
    prefix: Seq<char>,
) -> Seq<char>
    decreases subjects.len(),
{
    if subjects.len() == 0 {
        Seq::empty()
    } else {
        xml_descriptions(s, subjects.drop_last(), namespace, prefix) + xml_description(
            s,
            subjects.last(),
            namespace,
            prefix,
        )
    }
}

/// The XML declaration and the opening tag of the root.
pub open spec fn xml_header(namespace: Seq<char>, prefix: Seq<char>) -> Seq<char> {
    "<?xml version=\"1.0\" encoding=\"UTF-8\"?>\n"@
        + "<rdf:RDF xmlns:rdf=\"http://www.w3.org/1999/02/22-rdf-syntax-ns#\" xmlns:"@ + prefix
        + "=\""@ + namespace + "\">\n"@
}

/// `s` as an RDF/XML document: one description for each subject.
pub open spec fn rdf_xml_document(s: Statements, namespace: Seq<char>, prefix: Seq<char>) -> Seq<
    char,
> {
    xml_header(namespace, prefix) + xml_descriptions(s, subjects_in_order(s), namespace, prefix)
        + "</rdf:RDF>\n"@
}

// ---------------------------------------------------------------------------
// JSON-LD
// ---------------------------------------------------------------------------

/// The name under which a predicate appears in JSON-LD: `prefix:local` where
/// it begins with the namespace, the predicate itself where it does not.
pub open spec fn json_ld_key(predicate: Seq<char>, namespace: Seq<char>, prefix: Seq<char>) -> Seq<
    char,
> {
    if namespace.is_prefix_of(predicate) {
        prefixed_name(predicate, namespace, prefix)
    } else {
        predicate
    }
}

/// An object in JSON-LD: a reference for an absolute URI, a string for
/// anything else.
pub open spec fn json_ld_value(object: Seq<char>) -> JsonModel {
    if is_absolute_uri(object) {
        JsonModel::Object(seq![("@id"@, JsonModel::Text(object))])
    } else {
        JsonModel::Text(object)
    }
}

/// The members of the node of `subject`: its `@id`, then one member for each
/// predicate stated of it. Of two statements with one predicate the later
/// one gives the value.
pub open spec fn json_ld_members(
    s: Statements,
    subject: Seq<char>,
    namespace: Seq<char>,
    prefix: Seq<char>,
) -> Seq<(Seq<char>, JsonModel)>
    decreases s.len(),
{
    if s.len() == 0 {
        seq![("@id"@, JsonModel::Text(subject))]
    } else if s.last().subject == subject {
        set_member(
            json_ld_members(s.drop_last(), subject, namespace, prefix),
            json_ld_key(s.last().predicate, namespace, prefix),
            json_ld_value(s.last().object),
        )
    } else {
        json_ld_members(s.drop_last(), subject, namespace, prefix)
    }
}

/// The nodes of `subjects`, in order.
pub open spec fn json_ld_nodes(
    s: Statements,
    subjects: Seq<Seq<char>>,
    namespace: Seq<char>,
    prefix: Seq<char>,
) -> Seq<JsonModel>
    decreases subjects.len(),
{
    if subjects.len() == 0 {
        Seq::empty()
    } else {
        json_ld_nodes(s, subjects.drop_last(), namespace, prefix).push(
            JsonModel::Object(json_ld_members(s, subjects.last(), namespace, prefix)),
        )
    }
}

/// `s` as a JSON-LD document: a context that maps the prefix to the
/// namespace, and a graph with one node for each subject.
pub open spec fn json_ld_document(s: Statements, namespace: Seq<char>, prefix: Seq<char>) -> JsonModel {
    JsonModel::Object(
        seq![
            ("@context"@, JsonModel::Object(seq![(prefix, JsonModel::Text(namespace))])),
            (
                "@graph"@,
                JsonModel::List(json_ld_nodes(s, subjects_in_order(s), namespace, prefix)),
            ),
        ],
    )
}

// ---------------------------------------------------------------------------
// Checking statements
// ---------------------------------------------------------------------------

/// What is wrong with the statement `t`, the `index`-th of its sequence: a
/// subject or predicate that is no absolute URI, and an empty subject,
/// predicate or object, in this order.
pub open spec fn issues_of(t: TripleView, index: nat) -> Seq<Seq<char>> {
    let label = "Triple "@ + decimal(index);
    let subject_uri = if is_absolute_uri(t.subject) {
        Seq::<Seq<char>>::empty()
    } else {
        seq![label + ": Invalid subject URI: "@ + t.subject]
    };
    let predicate_uri = if is_absolute_uri(t.predicate) {
        Seq::<Seq<char>>::empty()
    } else {
        seq![label + ": Invalid predicate URI: "@ + t.predicate]
    };
    let subject_empty = if t.subject.len() == 0 {
        seq![label + ": Empty subject"@]
    } else {
        Seq::<Seq<char>>::empty()
    };
    let predicate_empty = if t.predicate.len() == 0 {
        seq![label + ": Empty predicate"@]
    } else {
        Seq::<Seq<char>>::empty()
    };
    let object_empty = if t.object.len() == 0 {
        seq![label + ": Empty object"@]
    } else {
        Seq::<Seq<char>>::empty()
    };
    subject_uri + predicate_uri + subject_empty + predicate_empty + object_empty
}

/// What is wrong with the statements of `s`, statement by statement.
pub open spec fn all_issues(s: Statements) -> Seq<Seq<char>>
    decreases s.len(),
{
    if s.len() == 0 {
        Seq::empty()
    } else {
        all_issues(s.drop_last()) + issues_of(s.last(), (s.len() - 1) as nat)
    }
}

// ---------------------------------------------------------------------------
// The serializer
// ---------------------------------------------------------------------------

/// What the serializer hands back.
#[derive(Debug)]
pub enum Encoded {
    /// The finished text.
    Text(String),
    /// The format asked for is the plain record array. It holds the
    /// statements as they are stored, confidence included, and the library
    /// does not print numbers with a fraction: the caller writes the records.
    RecordArray,
}

/// Why an encoding failed.
#[derive(Debug)]
pub enum SerializeError {
    /// The JSON writer refused the document; the field is what it said.
    Json(String),
}

impl SerializeError {
    /// The error as a sentence.
    pub fn message(&self) -> (text: String)
        ensures
            text@ == match self {
                SerializeError::Json(detail) => "Failed to serialize JSON-LD: "@ + detail@,
            },
    {
        match self {
            SerializeError::Json(detail) => join2("Failed to serialize JSON-LD: ", detail.as_str()),
        }
    }
}

/// Encodes statements as text.
#[derive(Debug, Clone, Copy, PartialEq, Eq, Structural)]
pub struct RdfSerializer;

/// `uri` as `prefix:local`.
fn prefixed(uri: &str, namespace: &str, prefix: &str) -> (r: String)
    requires
        namespace@.is_prefix_of(uri@),
    ensures
        r@ == prefixed_name(uri@, namespace@, prefix@),
{
    let local = without_prefix(uri, char_count(namespace));
    let mut out = join2(prefix, ":");
    out.append(local.as_str());
    out
}

/// The subjects of `triples` without repetitions, in the order in which
/// they first occur.
pub fn distinct_subjects(triples: &[RdfTriple]) -> (subjects: Vec<String>)
    ensures
        texts(subjects@) == subjects_in_order(views(triples@)),
{
    let ghost all = Seq::new(views(triples@).len(), |i: int| views(triples@)[i].subject);
    let mut subjects: Vec<String> = Vec::new();
    let mut i: usize = 0;
    assert(texts(subjects@) =~= first_seen(all.take(0)));
    while i < triples.len()
        invariant
            i <= triples.len(),
            all == Seq::new(views(triples@).len(), |i: int| views(triples@)[i].subject),
            texts(subjects@) == first_seen(all.take(i as int)),
        decreases triples.len() - i,
    {
        let ghost before = texts(subjects@);
        proof {
            let next = all.take(i + 1);
            assert(next.drop_last() == all.take(i as int));
            assert(next.last() == triples@[i as int]@.subject);
        }
        if !contains_text(&subjects, triples[i].subject.as_str()) {
            subjects.push(triples[i].subject.clone());
            assert(texts(subjects@) =~= before.push(triples@[i as int]@.subject));
        }
        i += 1;
    }
    assert(all.take(all.len() as int) == all);
    subjects
}

/// The JSON-LD node of `subject`.
fn json_ld_node(triples: &[RdfTriple], subject: &str, namespace: &str, prefix: &str) -> (node:
    JsonValue)
    ensures
        node@ == JsonModel::Object(json_ld_members(views(triples@), subject@, namespace@, prefix@)),
{
    let ghost s = views(triples@);
    let mut members: Vec<JsonMember> = Vec::new();
    members.push(JsonMember { name: "@id".to_string(), value: text_value(subject) });
    assert(members_model(members@) =~= json_ld_members(s.take(0), subject@, namespace@, prefix@));
    let mut i: usize = 0;
    while i < triples.len()
        invariant
            i <= triples.len(),
            s == views(triples@),
            members_model(members@) == json_ld_members(
                s.take(i as int),
                subject@,
                namespace@,
                prefix@,
            ),
        decreases triples.len() - i,
    {
        proof {
            let next = s.take(i + 1);
            assert(next.drop_last() == s.take(i as int));
            assert(next.last() == triples@[i as int]@);
        }
        let t = &triples[i];
        if same_text(t.subject.as_str(), subject) {
            let key = if starts_with(t.predicate.as_str(), namespace) {
                prefixed(t.predicate.as_str(), namespace, prefix)
            } else {
                t.predicate.clone()
            };
            let value = if is_absolute(t.object.as_str()) {
                let mut reference: Vec<JsonMember> = Vec::new();
                reference.push(
                    JsonMember { name: "@id".to_string(), value: text_value(t.object.as_str()) },
                );
                assert(members_model(reference@) =~= seq![("@id"@, JsonModel::Text(t.object@))]);
                object_of(reference)
            } else {
                text_value(t.object.as_str())
            };
            put_member(&mut members, key, value);
        }
        i += 1;
    }
    assert(s.take(triples@.len() as int) == s);
    object_of(members)
}

/// Builds the JSON-LD document of `triples`.
pub fn json_ld_tree(triples: &[RdfTriple], namespace: &str, prefix: &str) -> (tree: JsonValue)
    ensures
        tree@ == json_ld_document(views(triples@), namespace@, prefix@),
{
    let ghost s = views(triples@);
    let subjects = distinct_subjects(triples);
    let mut nodes: Vec<JsonValue> = Vec::new();
    let mut k: usize = 0;
    assert(list_model(nodes@) =~= json_ld_nodes(s, texts(subjects@).take(0), namespace@, prefix@));
    while k < subjects.len()
        invariant
            k <= subjects.len(),
            s == views(triples@),
            list_model(nodes@) == json_ld_nodes(
                s,
                texts(subjects@).take(k as int),
                namespace@,
                prefix@,
            ),
        decreases subjects.len() - k,
    {
        let ghost before = list_model(nodes@);
        proof {
            let next = texts(subjects@).take(k + 1);
            assert(next.drop_last() == texts(subjects@).take(k as int));
            assert(next.last() == subjects@[k as int]@);
        }
        let node = json_ld_node(triples, subjects[k].as_str(), namespace, prefix);
        nodes.push(node);
        assert(list_model(nodes@) =~= before.push(
            JsonModel::Object(json_ld_members(s, subjects@[k as int]@, namespace@, prefix@)),
        ));
        k += 1;
    }
    assert(texts(subjects@).take(subjects@.len() as int) == texts(subjects@));
    let mut context: Vec<JsonMember> = Vec::new();
    context.push(JsonMember { name: prefix.to_string(), value: text_value(namespace) });
    assert(members_model(context@) =~= seq![(prefix@, JsonModel::Text(namespace@))]);
    let mut document: Vec<JsonMember> = Vec::new();
    document.push(JsonMember { name: "@context".to_string(), value: object_of(context) });
    document.push(JsonMember { name: "@graph".to_string(), value: list_of(nodes) });
    assert(members_model(document@) =~= seq![
        ("@context"@, JsonModel::Object(seq![(prefix@, JsonModel::Text(namespace@))])),
        ("@graph"@, JsonModel::List(json_ld_nodes(s, subjects_in_order(s), namespace@, prefix@))),
    ]);
    object_of(document)
}

/// What becomes of the answer of the JSON writer to a JSON-LD document: the
/// text, where it wrote one, and a failure with what it said, where it
/// failed.
pub fn json_ld_outcome(rendered: Result<String, serde_json::Error>) -> (r: Result<
    String,
    SerializeError,
>)
    ensures
        rendered is Ok ==> r == Ok::<String, SerializeError>(rendered->Ok_0),
        rendered is Err ==> r is Err && r->Err_0 is Json,
{
    match written(rendered) {
        Ok(text) => Ok(text),
        Err(detail) => Err(SerializeError::Json(detail)),
    }
}

impl RdfSerializer {
    /// A serializer.
    pub fn new() -> (serializer: Self)
        ensures
            serializer == RdfSerializer,
    {
        RdfSerializer
    }

    /// Encodes `triples` in `format`. The four text encodings come back as
    /// text; for the plain record array the caller is told to write the
    /// records.
    pub fn serialize(
        &mut self,
        triples: &[RdfTriple],
        format: &OutputFormat,
        namespace: &str,
        prefix: &str,
    ) -> (r: Result<Encoded, SerializeError>)
        ensures
            match *format {
                OutputFormat::Turtle => r is Ok && r->Ok_0 is Text && r->Ok_0->Text_0@
                    == turtle_document(views(triples@), namespace@, prefix@),
                OutputFormat::NTriples => r is Ok && r->Ok_0 is Text && r->Ok_0->Text_0@
                    == ntriples_document(views(triples@)),
                OutputFormat::RdfXml => r is Ok && r->Ok_0 is Text && r->Ok_0->Text_0@
                    == rdf_xml_document(views(triples@), namespace@, prefix@),
                OutputFormat::JsonLd => r is Ok && r->Ok_0 is Text && r->Ok_0->Text_0@
                    == pretty_json(json_ld_document(views(triples@), namespace@, prefix@)),
                OutputFormat::Json => r is Ok && r->Ok_0 is RecordArray,
            },
    {
        match format {
            OutputFormat::Turtle => Ok(
                Encoded::Text(self.serialize_turtle(triples, namespace, prefix)),
            ),
            OutputFormat::JsonLd => match self.serialize_json_ld(triples, namespace, prefix) {
                Ok(text) => Ok(Encoded::Text(text)),
                Err(e) => Err(e),
            },
            OutputFormat::NTriples => Ok(Encoded::Text(self.serialize_ntriples(triples))),
            OutputFormat::RdfXml => Ok(
                Encoded::Text(self.serialize_rdf_xml(triples, namespace, prefix)),
            ),
            OutputFormat::Json => Ok(Encoded::RecordArray),
        }
    }

    /// Encodes `triples` as Turtle: the prefix declarations, an empty line,
    /// and one line for each statement.
    pub fn serialize_turtle(&self, triples: &[RdfTriple], namespace: &str, prefix: &str) -> (text: String)
        ensures
            text@ == turtle_document(views(triples@), namespace@, prefix@),
    {
        let ghost s = views(triples@);
        let mut out = join2("@prefix ", prefix);
        out.append(": <");
        out.append(namespace);
        out.append("> .\n");
        out.append("@prefix rdf: <http://www.w3.org/1999/02/22-rdf-syntax-ns#> .\n");
        out.append("@prefix rdfs: <http://www.w3.org/2000/01/rdf-schema#> .\n\n");
        assert(out@ =~= turtle_header(namespace@, prefix@) + turtle_lines(
            s.take(0),
            namespace@,
            prefix@,
        ));
        let mut i: usize = 0;
        while i < triples.len()
            invariant
                i <= triples.len(),
                s == views(triples@),
                out@ == turtle_header(namespace@, prefix@) + turtle_lines(
                    s.take(i as int),
                    namespace@,
                    prefix@,
                ),
            decreases triples.len() - i,
        {
            let ghost before = out@;
            proof {
                let next = s.take(i + 1);
                assert(next.drop_last() == s.take(i as int));
                assert(next.last() == triples@[i as int]@);
            }
            let subject = self.format_uri_for_turtle(triples[i].subject.as_str(), namespace, prefix);
            let predicate = self.format_uri_for_turtle(
                triples[i].predicate.as_str(),
                namespace,
                prefix,
            );
            let object = self.format_object_for_turtle(triples[i].object.as_str());
            out.append(subject.as_str());
            out.append(" ");
            out.append(predicate.as_str());
            out.append(" ");
            out.append(object.as_str());
            out.append(" .\n");
            assert(out@ =~= before + turtle_line(triples@[i as int]@, namespace@, prefix@));
            i += 1;
        }
        assert(s.take(triples@.len() as int) == s);
        out
    }

    /// Encodes `triples` as N-Triples: one line for each statement.
    pub fn serialize_ntriples(&self, triples: &[RdfTriple]) -> (text: String)
        ensures
            text@ == ntriples_document(views(triples@)),
    {
        let ghost s = views(triples@);
        let mut out = String::new();
        assert(out@ =~= ntriples_document(s.take(0)));
        let mut i: usize = 0;
        while i < triples.len()
            invariant
                i <= triples.len(),
                s == views(triples@),
                out@ == ntriples_document(s.take(i as int)),
            decreases triples.len() - i,
        {
            let ghost before = out@;
            proof {
                let next = s.take(i + 1);
                assert(next.drop_last() == s.take(i as int));
                assert(next.last() == triples@[i as int]@);
            }
            let line = triples[i].to_ntriple();
            out.append(line.as_str());
            out.append("\n");
            assert(out@ =~= before + triples@[i as int]@.ntriple() + "\n"@);
            i += 1;
        }
        assert(s.take(triples@.len() as int) == s);
        out
    }

    /// Encodes `triples` as JSON-LD. The document is built here and printed
    /// by the JSON writer, which does not fail on it.
    pub fn serialize_json_ld(&self, triples: &[RdfTriple], namespace: &str, prefix: &str) -> (r:
        Result<String, SerializeError>)
        ensures
            r is Ok,
            r->Ok_0@ == pretty_json(json_ld_document(views(triples@), namespace@, prefix@)),
    {
        let tree = json_ld_tree(triples, namespace, prefix);
        json_ld_outcome(render_pretty(&tree))
    }

    /// The elements of the statements about `subject`.
    fn append_elements(
        &self,
        out: &mut String,
        triples: &[RdfTriple],
        subject: &str,
        namespace: &str,
        prefix: &str,
    )
        ensures
            final(out)@ == old(out)@ + xml_elements(
                views(triples@),
                subject@,
                namespace@,
                prefix@,
            ),
    {
        let ghost s = views(triples@);
        let ghost start = out@;
        assert(out@ =~= start + xml_elements(s.take(0), subject@, namespace@, prefix@));
        let mut i: usize = 0;
        while i < triples.len()
            invariant
                i <= triples.len(),
                s == views(triples@),
                out@ == start + xml_elements(s.take(i as int), subject@, namespace@, prefix@),
            decreases triples.len() - i,
        {
            let ghost before = out@;
            proof {
                let next = s.take(i + 1);
                assert(next.drop_last() == s.take(i as int));
                assert(next.last() == triples@[i as int]@);
            }
            let t = &triples[i];
            if same_text(t.subject.as_str(), subject) {
                let name = if starts_with(t.predicate.as_str(), namespace) {
                    prefixed(t.predicate.as_str(), namespace, prefix)
                } else {
                    suffix_after_last(t.predicate.as_str(), '#')
                };
                if is_absolute(t.object.as_str()) {
                    out.append("    <");
                    out.append(name.as_str());
                    out.append(" rdf:resource=\"");
                    out.append(t.object.as_str());
                    out.append("\"/>\n");
                } else {
                    let body = encode_xml_text(t.object.as_str());
                    out.append("    <");
                    out.append(name.as_str());
                    out.append(">");
                    out.append(body.as_str());
                    out.append("</");
                    out.append(name.as_str());
                    out.append(">\n");
                }
                assert(out@ =~= before + xml_element(t@, namespace@, prefix@));
            }
            i += 1;
        }
        assert(s.take(triples@.len() as int) == s);
    }

    /// Encodes `triples` as RDF/XML: the declaration, the root, and one
    /// description for each subject with the statements about it.
    pub fn serialize_rdf_xml(&self, triples: &[RdfTriple], namespace: &str, prefix: &str) -> (text: String)
        ensures
            text@ == rdf_xml_document(views(triples@), namespace@, prefix@),
    {
        let ghost s = views(triples@);
        let mut out = String::new();
        out.append("<?xml version=\"1.0\" encoding=\"UTF-8\"?>\n");
        out.append("<rdf:RDF xmlns:rdf=\"http://www.w3.org/1999/02/22-rdf-syntax-ns#\" xmlns:");
        out.append(prefix);
        out.append("=\"");
        out.append(namespace);
        out.append("\">\n");
        let subjects = distinct_subjects(triples);
        assert(out@ =~= xml_header(namespace@, prefix@) + xml_descriptions(
            s,
            texts(subjects@).take(0),
            namespace@,
            prefix@,
        ));
        let mut k: usize = 0;
        while k < subjects.len()
            invariant
                k <= subjects.len(),
                s == views(triples@),
                out@ == xml_header(namespace@, prefix@) + xml_descriptions(
                    s,
                    texts(subjects@).take(k as int),
                    namespace@,
                    prefix@,
                ),
            decreases subjects.len() - k,
        {
            let ghost before = out@;
            proof {
                let next = texts(subjects@).take(k + 1);
                assert(next.drop_last() == texts(subjects@).take(k as int));
                assert(next.last() == subjects@[k as int]@);
            }
            out.append("  <rdf:Description rdf:about=\"");
            out.append(subjects[k].as_str());
            out.append("\">\n");
            self.append_elements(&mut out, triples, subjects[k].as_str(), namespace, prefix);
            out.append("  </rdf:Description>\n");
            assert(out@ =~= before + xml_description(s, subjects@[k as int]@, namespace@, prefix@));
            k += 1;
        }
        assert(texts(subjects@).take(subjects@.len() as int) == texts(subjects@));
        out.append("</rdf:RDF>\n");
        out
    }

    /// A subject or predicate as Turtle writes it.
    pub fn format_uri_for_turtle(&self, uri: &str, namespace: &str, prefix: &str) -> (r: String)
        ensures
            r@ == turtle_name(uri@, namespace@, prefix@),
    {
        if starts_with(uri, namespace) {
            prefixed(uri, namespace, prefix)
        } else {
            let mut out = join2("<", uri);
            out.append(">");
            out
        }
    }

    /// An object as Turtle writes it.
    pub fn format_object_for_turtle(&self, object: &str) -> (r: String)
        ensures
            r@ == object_term(object@),
    {
        format_object_term(object)
    }
}

/// The name of the `index`-th of several output files: the stem, an
/// underscore, the number of the file counted from one, a dot and the
/// extension.
pub fn numbered_output_name(stem: &str, index: usize, extension: &str) -> (name: String)
    requires
        index < usize::MAX,
    ensures
        name@ == stem@ + "_"@ + decimal((index + 1) as nat) + "."@ + extension@,
{
    let mut name = join2(stem, "_");
    name.append(decimal_text(index + 1).as_str());
    name.append(".");
    name.append(extension);
    name
}

/// Replaces `&`, `<` and `>` by XML entities.
///
/// Trusted: wraps `html_escape::encode_text`, which copies its argument and
/// writes `&amp;` for `&`, `&lt;` for `<` and `&gt;` for `>`.
#[verifier::external_body]
pub(crate) fn encode_xml_text(s: &str) -> (r: String)
    ensures
        r@ == escape_xml_text(s@),
{
    html_escape::encode_text(s).into_owned()
}

/// Lists what is wrong with `triples`: for each statement, in order, a
/// subject or predicate that is no absolute URI, and an empty subject,
/// predicate or object.
pub fn validate_rdf_triples(triples: &[RdfTriple]) -> (issues: Vec<String>)
    ensures
        texts(issues@) == all_issues(views(triples@)),
{
    let ghost s = views(triples@);
    let mut issues: Vec<String> = Vec::new();
    assert(texts(issues@) =~= all_issues(s.take(0)));
    let mut i: usize = 0;
    while i < triples.len()
        invariant
            i <= triples.len(),
            s == views(triples@),
            texts(issues@) == all_issues(s.take(i as int)),
        decreases triples.len() - i,
    {
        let ghost before = texts(issues@);
        proof {
            let next = s.take(i + 1);
            assert(next.drop_last() == s.take(i as int));
            assert(next.last() == triples@[i as int]@);
            assert(next.len() - 1 == i);
        }
        let t = &triples[i];
        let label = join2("Triple ", decimal_text(i).as_str());
        let ghost mut found = Seq::<Seq<char>>::empty();
        if !is_absolute(t.subject.as_str()) {
            let mut issue = join2(label.as_str(), ": Invalid subject URI: ");
            issue.append(t.subject.as_str());
            issues.push(issue);
            proof {
                found = found.push(label@ + ": Invalid subject URI: "@ + t.subject@);
            }
            assert(texts(issues@) =~= before + found);
        }
        if !is_absolute(t.predicate.as_str()) {
            let mut issue = join2(label.as_str(), ": Invalid predicate URI: ");
            issue.append(t.predicate.as_str());
            issues.push(issue);
            proof {
                found = found.push(label@ + ": Invalid predicate URI: "@ + t.predicate@);
            }
            assert(texts(issues@) =~= before + found);
        }
        if t.subject.as_str().is_empty() {
            issues.push(join2(label.as_str(), ": Empty subject"));
            proof {
                found = found.push(label@ + ": Empty subject"@);
            }
            assert(texts(issues@) =~= before + found);
        }
        if t.predicate.as_str().is_empty() {
            issues.push(join2(label.as_str(), ": Empty predicate"));
            proof {
                found = found.push(label@ + ": Empty predicate"@);
            }
            assert(texts(issues@) =~= before + found);
        }
        if t.object.as_str().is_empty() {
            issues.push(join2(label.as_str(), ": Empty object"));
            proof {
                found = found.push(label@ + ": Empty object"@);
            }
            assert(texts(issues@) =~= before + found);
        }
        assert(texts(issues@) =~= before + found);
        assert(found =~= issues_of(t@, i as nat));
        i += 1;
    }
    assert(s.take(triples@.len() as int) == s);
    issues
}

} // verus!
