//! The query engine: a fixed vocabulary of query shapes, recognised by the
//! fragments that a query text contains.
//!
//! This is no query parser. A `SELECT` query that asks for `?name` over
//! `hasName`, or for `?role` over `hasRole`, is answered from the statements
//! whose predicate contains that fragment; every other `SELECT` query is
//! answered with all statements.

use vstd::prelude::*;

use crate::knowledge_graph::model::{views, Statements};
use crate::knowledge_graph::store::{KnowledgeGraph, KnowledgeGraphError};
use crate::text::{contains, has_substring, lowercase, starts_with, to_lowercase, trim, trimmed};
use crate::text_map::{find_from, Entries, TextMap};
use crate::triple::{RdfTriple, TripleView};

verus! {

/// One row of a result: the variables of the query with the strings bound to
/// them.
pub type SolutionRow = TextMap;

/// What a query returns.
#[derive(Debug)]
pub enum SimpleSparqlResults {
    /// One row per match, in the order of the statements matched.
    Solutions(Vec<SolutionRow>),
    /// The answer to a yes-or-no question.
    Boolean(bool),
}

/// A result as contracts see it.
pub enum ResultsView {
    Solutions(Seq<Entries>),
    Boolean(bool),
}

/// The rows that a vector of rows stands for.
pub open spec fn row_views(rows: Seq<SolutionRow>) -> Seq<Entries> {
    Seq::new(rows.len(), |i: int| rows[i]@)
}

impl View for SimpleSparqlResults {
    type V = ResultsView;

    open spec fn view(&self) -> ResultsView {
        match self {
            SimpleSparqlResults::Solutions(rows) => ResultsView::Solutions(row_views(rows@)),
            SimpleSparqlResults::Boolean(b) => ResultsView::Boolean(*b),
        }
    }
}

/// The shapes of query that the engine tells apart.
#[derive(Debug, Clone, Copy, PartialEq, Eq, Structural)]
pub enum QueryShape {
    /// Names of entities: rows of `name` and `entity`.
    Names,
    /// Roles of persons: rows of `role` and `person`.
    Roles,
    /// Every statement: rows of `subject`, `predicate` and `object`.
    Everything,
}

/// Whether `query` is one that the engine accepts: once white space around
/// it is removed and its letters are lowered, it begins with `select`.
pub open spec fn is_select(query: Seq<char>) -> bool {
    "select"@.is_prefix_of(lowercase(trim(query)))
}

/// The shape of a query. The name shape is looked for first, then the role
/// shape; a query of neither shape asks for everything.
pub open spec fn shape_of(query: Seq<char>) -> QueryShape {
    if has_substring(query, "?name"@) && has_substring(query, "hasName"@) {
        QueryShape::Names
    } else if has_substring(query, "?role"@) && has_substring(query, "hasRole"@) {
        QueryShape::Roles
    } else {
        QueryShape::Everything
    }
}

impl QueryShape {
    /// Whether a query of this shape matches the statement `t`.
    pub open spec fn selects(self, t: TripleView) -> bool {
        match self {
            QueryShape::Names => has_substring(t.predicate, "hasName"@),
            QueryShape::Roles => has_substring(t.predicate, "hasRole"@),
            QueryShape::Everything => true,
        }
    }

    /// The row that a query of this shape returns for the statement `t`.
    pub open spec fn row(self, t: TripleView) -> Entries {
        match self {
            QueryShape::Names => seq![("name"@, t.object), ("entity"@, t.subject)],
            QueryShape::Roles => seq![("role"@, t.object), ("person"@, t.subject)],
            QueryShape::Everything => seq![
                ("subject"@, t.subject),
                ("predicate"@, t.predicate),
                ("object"@, t.object),
            ],
        }
    }

    /// The rows that a query of this shape returns on the statements `s`: one
    /// for each statement that it matches, in the order of the statements.
    pub open spec fn rows(self, s: Statements) -> Seq<Entries>
        decreases s.len(),
    {
        if s.len() == 0 {
            Seq::empty()
        } else if self.selects(s.last()) {
            self.rows(s.drop_last()).push(self.row(s.last()))
        } else {
            self.rows(s.drop_last())
        }
    }

    /// Recognises the shape of `query`.
    pub fn classify(query: &str) -> (shape: QueryShape)
        ensures
            shape == shape_of(query@),
    {
        if contains(query, "?name") && contains(query, "hasName") {
            QueryShape::Names
        } else if contains(query, "?role") && contains(query, "hasRole") {
            QueryShape::Roles
        } else {
            QueryShape::Everything
        }
    }

    /// Decides whether a query of this shape matches `t`.
    pub fn matches(self, t: &RdfTriple) -> (b: bool)
        ensures
            b == self.selects(t@),
    {
        match self {
            QueryShape::Names => contains(t.predicate.as_str(), "hasName"),
            QueryShape::Roles => contains(t.predicate.as_str(), "hasRole"),
            QueryShape::Everything => true,
        }
    }

    /// Builds the row for `t`.
    pub fn make_row(self, t: &RdfTriple) -> (row: SolutionRow)
        ensures
            row@ == self.row(t@),
    {
        let mut row = TextMap::new();
        proof {
            reveal_with_fuel(find_from, 4);
            reveal_strlit("name");
            reveal_strlit("entity");
            reveal_strlit("role");
            reveal_strlit("person");
            reveal_strlit("subject");
            reveal_strlit("predicate");
            reveal_strlit("object");
        }
        match self {
            QueryShape::Names => {
                row.insert("name".to_string(), t.object.clone());
                assert("name"@[0] != "entity"@[0]);
                row.insert("entity".to_string(), t.subject.clone());
                assert(row@ =~= self.row(t@));
            },
            QueryShape::Roles => {
                row.insert("role".to_string(), t.object.clone());
                assert("role"@[0] != "person"@[0]);
                row.insert("person".to_string(), t.subject.clone());
                assert(row@ =~= self.row(t@));
            },
            QueryShape::Everything => {
                row.insert("subject".to_string(), t.subject.clone());
                assert("subject"@[0] != "predicate"@[0]);
                row.insert("predicate".to_string(), t.predicate.clone());
                assert("subject"@[0] != "object"@[0]);
                assert("predicate"@[0] != "object"@[0]);
                row.insert("object".to_string(), t.object.clone());
                assert(row@ =~= self.row(t@));
            },
        }
        row
    }
}

/// The rows of a shape are the rows of the statements that it matches, in
/// the order of the statements.
pub proof fn lemma_rows_filter_and_map(shape: QueryShape, s: Statements)
    ensures
        shape.rows(s) == s.filter(|t: TripleView| shape.selects(t)).map_values(
            |t: TripleView| shape.row(t),
        ),
    decreases s.len(),
{
    let selects = |t: TripleView| shape.selects(t);
    let row = |t: TripleView| shape.row(t);
    reveal(Seq::filter);
    if s.len() > 0 {
        lemma_rows_filter_and_map(shape, s.drop_last());
        let kept = s.drop_last().filter(selects);
        if shape.selects(s.last()) {
            assert(s.filter(selects) == kept.push(s.last()));
            assert(kept.push(s.last()).map_values(row) =~= kept.map_values(row).push(
                shape.row(s.last()),
            ));
        } else {
            assert(s.filter(selects) == kept);
        }
    } else {
        assert(s.filter(selects).map_values(row) =~= Seq::<Entries>::empty());
    }
}

/// Whether a query text, already trimmed and lowered, is of the form that
/// the engine accepts.
pub fn is_select_form(normalized: &str) -> (b: bool)
    ensures
        b == "select"@.is_prefix_of(normalized@),
{
    starts_with(normalized, "select")
}

impl KnowledgeGraph {
    /// Answers `query` if it is a `SELECT` query, whatever the case of its
    /// letters and the white space around it, and refuses it otherwise.
    pub fn execute_sparql(&self, query: &str) -> (r: Result<SimpleSparqlResults, KnowledgeGraphError>)
        ensures
            r is Ok <==> is_select(query@),
            r is Ok ==> r->Ok_0@ == ResultsView::Solutions(shape_of(query@).rows(self@)),
            r is Err ==> r->Err_0 is UnsupportedQuery && r->Err_0->UnsupportedQuery_0@ == query@,
    {
        let trimmed_query = trimmed(query);
        let normalized = to_lowercase(trimmed_query.as_str());
        if is_select_form(normalized.as_str()) {
            self.execute_select_query(query)
        } else {
            Err(KnowledgeGraphError::UnsupportedQuery(query.to_string()))
        }
    }

    /// Answers a query by its shape: one row for each statement that the
    /// shape matches, in the order of the store.
    pub fn execute_select_query(&self, query: &str) -> (r: Result<
        SimpleSparqlResults,
        KnowledgeGraphError,
    >)
        ensures
            r is Ok,
            r->Ok_0@ == ResultsView::Solutions(shape_of(query@).rows(self@)),
    {
        let shape = QueryShape::classify(query);
        let records = self.triples();
        let mut rows: Vec<SolutionRow> = Vec::new();
        let mut i: usize = 0;
        assert(row_views(rows@) =~= shape.rows(views(records@).take(0)));
        while i < records.len()
            invariant
                i <= records.len(),
                row_views(rows@) == shape.rows(views(records@).take(i as int)),
            decreases records.len() - i,
        {
            let ghost before = row_views(rows@);
            proof {
                let next = views(records@).take(i + 1);
                assert(next.drop_last() == views(records@).take(i as int));
                assert(next.last() == records@[i as int]@);
            }
            if shape.matches(&records[i]) {
                let row = shape.make_row(&records[i]);
                rows.push(row);
                assert(row_views(rows@) =~= before.push(shape.row(records@[i as int]@)));
            }
            i += 1;
        }
        assert(views(records@).take(records@.len() as int) == views(records@));
        Ok(SimpleSparqlResults::Solutions(rows))
    }
}

} // verus!
