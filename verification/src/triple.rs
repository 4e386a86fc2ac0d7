//! The statement record: one subject–predicate–object fact with its
//! confidence, source and free-form metadata.

use vstd::prelude::*;

use crate::text::{escape_double_quotes, escape_quotes, is_absolute, is_absolute_uri, join2};
use crate::text_map::{Entries, TextMap};

verus! {

/// The IEEE-754 single-precision bit pattern of `1.0`, the confidence of a
/// statement that nobody has qualified.
pub const FULL_CONFIDENCE: u32 = 0x3F80_0000;

/// One statement. `confidence_bits` holds the confidence, a single-precision
/// number between 0 and 1, as its IEEE-754 bit pattern: the library carries it
/// and never computes with it.
#[derive(Debug)]
pub struct RdfTriple {
    pub subject: String,
    pub predicate: String,
    pub object: String,
    pub confidence_bits: u32,
    pub source: Option<String>,
    pub metadata: TextMap,
}

/// A statement as contracts see it.
pub struct TripleView {
    pub subject: Seq<char>,
    pub predicate: Seq<char>,
    pub object: Seq<char>,
    pub confidence_bits: u32,
    pub source: Option<Seq<char>>,
    pub metadata: Entries,
}

/// The identity of a statement: subject, predicate and object. Confidence,
/// source and metadata are no part of it.
pub type TripleKey = (Seq<char>, Seq<char>, Seq<char>);

impl TripleView {
    /// The identity of this statement.
    pub open spec fn key(self) -> TripleKey {
        (self.subject, self.predicate, self.object)
    }

    /// The object as N-Triples and Turtle write it: an absolute URI between
    /// angle brackets, anything else as a quoted literal with its double
    /// quotes escaped.
    pub open spec fn object_term(self) -> Seq<char> {
        object_term(self.object)
    }

    /// The statement as one N-Triples line, without the line break.
    pub open spec fn ntriple(self) -> Seq<char> {
        "<"@ + self.subject + "> <"@ + self.predicate + "> "@ + self.object_term() + " ."@
    }
}

/// An object as N-Triples and Turtle write it.
pub open spec fn object_term(object: Seq<char>) -> Seq<char> {
    if is_absolute_uri(object) {
        "<"@ + object + ">"@
    } else {
        "\""@ + escape_quotes(object) + "\""@
    }
}

impl View for RdfTriple {
    type V = TripleView;

    open spec fn view(&self) -> TripleView {
        TripleView {
            subject: self.subject@,
            predicate: self.predicate@,
            object: self.object@,
            confidence_bits: self.confidence_bits,
            source: match self.source {
                Some(s) => Some(s@),
                None => None,
            },
            metadata: self.metadata@,
        }
    }
}

impl Clone for RdfTriple {
    fn clone(&self) -> (copy: Self)
        ensures
            copy@ == self@,
    {
        RdfTriple {
            subject: self.subject.clone(),
            predicate: self.predicate.clone(),
            object: self.object.clone(),
            confidence_bits: self.confidence_bits,
            source: match &self.source {
                Some(s) => Some(s.clone()),
                None => None,
            },
            metadata: self.metadata.clone(),
        }
    }
}

/// Writes an object term.
pub fn format_object_term(object: &str) -> (r: String)
    ensures
        r@ == object_term(object@),
{
    if is_absolute(object) {
        let mut out = join2("<", object);
        out.append(">");
        out
    } else {
        let escaped = escape_double_quotes(object);
        let mut out = join2("\"", escaped.as_str());
        out.append("\"");
        out
    }
}

impl RdfTriple {
    /// A statement with full confidence, no source and no metadata.
    pub fn new(subject: String, predicate: String, object: String) -> (t: Self)
        ensures
            t@.subject == subject@,
            t@.predicate == predicate@,
            t@.object == object@,
            t@.confidence_bits == FULL_CONFIDENCE,
            t@.source is None,
            t@.metadata == Entries::empty(),
    {
        RdfTriple {
            subject,
            predicate,
            object,
            confidence_bits: FULL_CONFIDENCE,
            source: None,
            metadata: TextMap::new(),
        }
    }

    /// The same statement, attributed to `source`.
    pub fn with_source(self, source: String) -> (t: Self)
        ensures
            t@ == (TripleView { source: Some(source@), ..self@ }),
    {
        let mut t = self;
        t.source = Some(source);
        t
    }

    /// The same statement with another confidence, given as the bit pattern
    /// of a single-precision number.
    pub fn with_confidence(self, confidence_bits: u32) -> (t: Self)
        ensures
            t@ == (TripleView { confidence_bits, ..self@ }),
    {
        let mut t = self;
        t.confidence_bits = confidence_bits;
        t
    }

    /// The statement as one N-Triples line, without the line break.
    pub fn to_ntriple(&self) -> (line: String)
        ensures
            line@ == self@.ntriple(),
    {
        let object = format_object_term(self.object.as_str());
        let mut out = join2("<", self.subject.as_str());
        out.append("> <");
        out.append(self.predicate.as_str());
        out.append("> ");
        out.append(object.as_str());
        out.append(" .");
        out
    }

    /// Whether two statements have the same identity.
    pub fn same_key(&self, other: &RdfTriple) -> (r: bool)
        ensures
            r == (self@.key() == other@.key()),
    {
        self.subject == other.subject && self.predicate == other.predicate && self.object
            == other.object
    }
}

} // verus!
