//! What holds of the store across calls.

use vstd::prelude::*;

use crate::knowledge_graph::model::{
    absorb, distinct, has_key, lemma_absorb_all_new, lemma_absorb_covers, lemma_absorb_distinct,
    lemma_absorb_nothing_new, lemma_absorb_push, Statements,
};
use crate::knowledge_graph::query::{shape_of, QueryShape};
use crate::knowledge_graph::traversal::{
    at_depth, explore, neighbour, neighbours, node_list, related_entities, within,
};
use crate::text::{has_substring, is_absolute_uri};
use crate::triple::TripleView;

verus! {

/// Inserting is idempotent: a batch that was inserted adds nothing when it
/// is inserted again, whatever the store held before.
pub proof fn law_second_insert_adds_nothing(store: Statements, batch: Statements)
    ensures
        absorb(absorb(store, batch), batch) == absorb(store, batch),
        absorb(absorb(store, batch), batch).len() - absorb(store, batch).len() == 0,
{
    lemma_absorb_covers(store, batch);
    lemma_absorb_nothing_new(absorb(store, batch), batch);
}

/// A batch without repeated identities, inserted into an empty store, is
/// stored whole and in order; inserted again, it adds nothing.
pub proof fn law_fresh_store_holds_the_batch(batch: Statements)
    requires
        distinct(batch),
    ensures
        absorb(Statements::empty(), batch) == batch,
        absorb(Statements::empty(), batch).len() == batch.len(),
        absorb(absorb(Statements::empty(), batch), batch) == batch,
{
    lemma_absorb_all_new(Statements::empty(), batch);
    assert(Statements::empty() + batch =~= batch);
    law_second_insert_adds_nothing(Statements::empty(), batch);
}

/// The statements of a store, handed to a new store as its snapshot, make
/// the same store: the same statements in the same order.
pub proof fn law_snapshot_restores_the_store(store: Statements)
    requires
        distinct(store),
    ensures
        absorb(Statements::empty(), store) == store,
{
    law_fresh_store_holds_the_batch(store);
}

/// Of two statements with the same subject, predicate and object the first
/// one inserted stays, with its confidence, source and metadata; the second
/// leaves no trace, be it offered in the same batch or in a later one. Into
/// a store that holds no such statement, exactly the first is appended.
pub proof fn law_first_statement_wins(store: Statements, first: TripleView, second: TripleView)
    requires
        first.key() == second.key(),
    ensures
        absorb(store, seq![first, second]) == absorb(store, seq![first]),
        absorb(absorb(store, seq![first]), seq![second]) == absorb(store, seq![first]),
        !has_key(store, first.key()) ==> absorb(store, seq![first]) == store.push(first),
        has_key(store, first.key()) ==> absorb(store, seq![first]) == store,
{
    let one = Statements::empty().push(first);
    assert(seq![first] =~= one);
    assert(seq![first, second] =~= one.push(second));
    assert(seq![second] =~= Statements::empty().push(second));
    lemma_absorb_push(store, Statements::empty(), first);
    let after = absorb(store, one);
    assert(has_key(after, second.key())) by {
        if has_key(store, first.key()) {
            assert(after == store);
        } else {
            assert(after == store.push(first));
            assert(after[store.len() as int].key() == second.key());
        }
    }
    lemma_absorb_push(store, one, second);
    lemma_absorb_push(after, Statements::empty(), second);
}

/// A statement whose identity is present is never stored again.
pub proof fn law_present_statement_is_ignored(store: Statements, t: TripleView)
    requires
        has_key(store, t.key()),
    ensures
        absorb(store, seq![t]) == store,
{
    assert(seq![t] =~= Statements::empty().push(t));
    lemma_absorb_push(store, Statements::empty(), t);
}

/// Inserting never breaks the rule of the store: no two statements with
/// the same subject, predicate and object.
pub proof fn law_store_stays_distinct(store: Statements, batch: Statements)
    requires
        distinct(store),
    ensures
        distinct(absorb(store, batch)),
{
    lemma_absorb_distinct(store, batch);
}

/// A query that contains `?name` and `hasName` is a query for names: its
/// rows hold a name and an entity, one row for each statement whose
/// predicate contains `hasName`, whatever else the store holds.
pub proof fn law_name_queries_return_names(query: Seq<char>, s: Statements)
    requires
        has_substring(query, "?name"@),
        has_substring(query, "hasName"@),
    ensures
        shape_of(query) == QueryShape::Names,
        forall|i: int|
            0 <= i < shape_of(query).rows(s).len() ==> {
                let row = #[trigger] shape_of(query).rows(s)[i];
                row.len() == 2 && row[0].0 == "name"@ && row[1].0 == "entity"@
            },
        s.len() > 0 && !has_substring(s.last().predicate, "hasName"@) ==> shape_of(query).rows(s)
            == shape_of(query).rows(s.drop_last()),
{
    lemma_name_rows(s);
}

/// Every row of a query for names holds a name and an entity.
pub proof fn lemma_name_rows(s: Statements)
    ensures
        QueryShape::Names.rows(s).len() <= s.len(),
        forall|i: int|
            0 <= i < QueryShape::Names.rows(s).len() ==> {
                let row = #[trigger] QueryShape::Names.rows(s)[i];
                row.len() == 2 && row[0].0 == "name"@ && row[1].0 == "entity"@
            },
    decreases s.len(),
{
    if s.len() > 0 {
        lemma_name_rows(s.drop_last());
    }
}

/// With depth zero nothing is related to anything.
pub proof fn law_depth_zero_relates_nothing(s: Statements, start: Seq<char>)
    ensures
        related_entities(s, start, 0) == Seq::<Seq<char>>::empty(),
{
}

/// In a store with the single statement `t`, whose object is an absolute
/// URI other than its subject, one step from the subject finds the object,
/// and one step from the object finds the subject.
pub proof fn law_one_step_finds_the_neighbour(t: TripleView)
    requires
        is_absolute_uri(t.object),
        t.subject != t.object,
    ensures
        related_entities(seq![t], t.subject, 1) == seq![t.object],
        related_entities(seq![t], t.object, 1) == seq![t.subject],
{
    let s = seq![t];
    assert(s.drop_last() =~= Statements::empty());
    assert(s.last() == t);
    assert(node_list(Statements::empty()) =~= Seq::<Seq<char>>::empty());
    let nodes = node_list(s);
    assert(nodes =~= seq![t.subject, t.object]);
    assert(nodes[0] == t.subject);
    assert(nodes[1] == t.object);
    lemma_single_step(s, t, t.subject, t.object);
    lemma_single_step(s, t, t.object, t.subject);
}

/// The walk of one step in a store of one statement.
proof fn lemma_single_step(s: Statements, t: TripleView, start: Seq<char>, other: Seq<char>)
    requires
        s == seq![t],
        is_absolute_uri(t.object),
        t.subject != t.object,
        (start == t.subject && other == t.object) || (start == t.object && other == t.subject),
        node_list(s).contains(other),
    ensures
        related_entities(s, start, 1) == seq![other],
{
    let seen = seq![start];
    assert(s.drop_last() =~= Statements::empty());
    assert(s.last() == t);
    assert(seen[0] == start);
    assert(!seen.contains(other)) by {
        if seen.contains(other) {
            let i = choose|i: int| 0 <= i < seen.len() && seen[i] == other;
            assert(seen[i] == start);
        }
    }
    assert(neighbour(t, start, seen) == Some(other));
    assert(neighbours(Statements::empty(), start, seen) =~= Seq::<Seq<char>>::empty());
    let found = neighbours(s, start, seen);
    assert(found =~= seq![other]);
    let queue = at_depth(found, 1);
    assert(queue =~= seq![(other, 1nat)]);
    assert(within(s, queue)) by {
        assert forall|i: int| 0 <= i < queue.len() implies node_list(s).contains(
            (#[trigger] queue[i]).0,
        ) by {
            assert(queue[i].0 == other);
        }
    }
    let rest = queue.drop_first();
    assert(rest =~= Seq::<(Seq<char>, nat)>::empty());
    assert(within(s, rest));
    assert(explore(s, 1, rest, seen, found) == found);
    assert(explore(s, 1, queue, seen, found) == explore(s, 1, rest, seen, found));
}

} // verus!
