//! Cardinalities of a store.

use vstd::prelude::*;

use crate::knowledge_graph::model::{views, Statements};
use crate::knowledge_graph::store::{KnowledgeGraph, KnowledgeGraphError};
use crate::text::{contains_text, decimal, decimal_text, join2, texts};
use crate::triple::RdfTriple;

verus! {

/// How many statements a store holds, and how many distinct strings occur
/// as their subjects, predicates and objects.
#[derive(Debug, Clone, Copy, PartialEq, Eq, Structural)]
pub struct KnowledgeGraphStats {
    pub total_triples: usize,
    pub unique_subjects: usize,
    pub unique_predicates: usize,
    pub unique_objects: usize,
}

/// The subjects of `s`, in order.
pub open spec fn subjects(s: Statements) -> Seq<Seq<char>> {
    Seq::new(s.len(), |i: int| s[i].subject)
}

/// The predicates of `s`, in order.
pub open spec fn predicates(s: Statements) -> Seq<Seq<char>> {
    Seq::new(s.len(), |i: int| s[i].predicate)
}

/// The objects of `s`, in order.
pub open spec fn objects(s: Statements) -> Seq<Seq<char>> {
    Seq::new(s.len(), |i: int| s[i].object)
}

/// The number of distinct strings among `values`.
pub open spec fn distinct_count(values: Seq<Seq<char>>) -> nat {
    values.to_set().len()
}

impl KnowledgeGraphStats {
    /// The statistics as a report of five lines.
    pub open spec fn report(self) -> Seq<char> {
        "Knowledge Graph Statistics:\nTotal Triples: "@ + decimal(self.total_triples as nat)
            + "\nUnique Subjects: "@ + decimal(self.unique_subjects as nat)
            + "\nUnique Predicates: "@ + decimal(self.unique_predicates as nat)
            + "\nUnique Objects: "@ + decimal(self.unique_objects as nat)
    }

    /// Writes the report.
    pub fn to_text(&self) -> (text: String)
        ensures
            text@ == self.report(),
    {
        let mut out = join2(
            "Knowledge Graph Statistics:\nTotal Triples: ",
            decimal_text(self.total_triples).as_str(),
        );
        out.append("\nUnique Subjects: ");
        out.append(decimal_text(self.unique_subjects).as_str());
        out.append("\nUnique Predicates: ");
        out.append(decimal_text(self.unique_predicates).as_str());
        out.append("\nUnique Objects: ");
        out.append(decimal_text(self.unique_objects).as_str());
        out
    }
}

/// Counts the distinct strings among `values`.
pub fn count_distinct(values: &Vec<String>) -> (n: usize)
    ensures
        n == distinct_count(texts(values@)),
        n <= values.len(),
{
    let mut unique: Vec<String> = Vec::new();
    let mut i: usize = 0;
    assert(texts(unique@) =~= Seq::<Seq<char>>::empty());
    assert(texts(values@).take(0) =~= Seq::<Seq<char>>::empty());
    while i < values.len()
        invariant
            i <= values.len(),
            unique.len() <= i,
            texts(unique@).no_duplicates(),
            texts(unique@).to_set() == texts(values@).take(i as int).to_set(),
        decreases values.len() - i,
    {
        let ghost kept = texts(unique@);
        let ghost read = texts(values@).take(i as int);
        let ghost value = values@[i as int]@;
        proof {
            assert(texts(values@).take(i + 1) =~= read.push(value));
            read.lemma_push_to_set_commute(value);
            kept.lemma_push_to_set_commute(value);
        }
        if !contains_text(&unique, values[i].as_str()) {
            unique.push(values[i].clone());
            assert(texts(unique@) =~= kept.push(value));
            assert(texts(unique@).no_duplicates()) by {
                assert forall|a: int, b: int|
                    0 <= a < kept.len() + 1 && 0 <= b < kept.len() + 1 && a != b implies kept.push(
                    value,
                )[a] != kept.push(value)[b] by {
                    if a == kept.len() {
                        assert(kept[b] != value);
                    } else if b == kept.len() {
                        assert(kept[a] != value);
                    }
                }
            }
        } else {
            assert(kept.to_set().contains(value));
            assert(kept.to_set().insert(value) =~= kept.to_set());
        }
        i += 1;
    }
    proof {
        assert(texts(values@).take(values@.len() as int) == texts(values@));
        texts(unique@).unique_seq_to_set();
    }
    unique.len()
}

/// The subjects, predicates and objects of `records`, each in order.
fn columns(records: &Vec<RdfTriple>) -> (c: (Vec<String>, Vec<String>, Vec<String>))
    ensures
        texts(c.0@) == subjects(views(records@)),
        texts(c.1@) == predicates(views(records@)),
        texts(c.2@) == objects(views(records@)),
{
    let mut s: Vec<String> = Vec::new();
    let mut p: Vec<String> = Vec::new();
    let mut o: Vec<String> = Vec::new();
    let mut i: usize = 0;
    while i < records.len()
        invariant
            i <= records.len(),
            s.len() == i,
            p.len() == i,
            o.len() == i,
            forall|k: int| 0 <= k < i ==> (#[trigger] s@[k])@ == records@[k]@.subject,
            forall|k: int| 0 <= k < i ==> (#[trigger] p@[k])@ == records@[k]@.predicate,
            forall|k: int| 0 <= k < i ==> (#[trigger] o@[k])@ == records@[k]@.object,
        decreases records.len() - i,
    {
        s.push(records[i].subject.clone());
        p.push(records[i].predicate.clone());
        o.push(records[i].object.clone());
        i += 1;
    }
    assert(texts(s@) =~= subjects(views(records@)));
    assert(texts(p@) =~= predicates(views(records@)));
    assert(texts(o@) =~= objects(views(records@)));
    (s, p, o)
}

impl KnowledgeGraph {
    /// The number of statements, and the numbers of distinct subjects,
    /// predicates and objects. Two strings are the same when they hold the
    /// same characters.
    pub fn get_statistics(&self) -> (r: Result<KnowledgeGraphStats, KnowledgeGraphError>)
        ensures
            r is Ok,
            r->Ok_0.total_triples == self@.len(),
            r->Ok_0.unique_subjects == distinct_count(subjects(self@)),
            r->Ok_0.unique_predicates == distinct_count(predicates(self@)),
            r->Ok_0.unique_objects == distinct_count(objects(self@)),
    {
        let records = self.triples();
        let (s, p, o) = columns(records);
        Ok(
            KnowledgeGraphStats {
                total_triples: records.len(),
                unique_subjects: count_distinct(&s),
                unique_predicates: count_distinct(&p),
                unique_objects: count_distinct(&o),
            },
        )
    }
}

} // verus!
