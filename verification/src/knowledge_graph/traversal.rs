//! Bounded discovery of related entities.
//!
//! The walk is breadth-first. It keeps a queue of entities with the depth at
//! which each was found, the entities it has expanded, and the entities it
//! has recorded. An entity is expanded at most once and only at a depth below
//! the bound; expanding it records, in the order of the store, every
//! neighbour that has not been expanded yet. An entity reached along several
//! statements is therefore recorded once for each of them.

use vstd::prelude::*;

use crate::knowledge_graph::model::{views, Statements};
use crate::knowledge_graph::store::{KnowledgeGraph, KnowledgeGraphError};
use crate::text::{contains_text, is_absolute, is_absolute_uri, same_text, texts};
use crate::triple::{RdfTriple, TripleView};

verus! {

/// A queue of entities, each with the depth at which it was found.
pub type Frontier = Seq<(Seq<char>, nat)>;

/// The entity that the statement `t` relates `node` to, if it does and that
/// entity has not been expanded: the object of `t` where `node` is its
/// subject, the subject of `t` where `node` is its object. Either way the
/// object of `t` has to be an absolute URI.
pub open spec fn neighbour(t: TripleView, node: Seq<char>, seen: Seq<Seq<char>>) -> Option<
    Seq<char>,
> {
    if t.subject == node && is_absolute_uri(t.object) && !seen.contains(t.object) {
        Some(t.object)
    } else if t.object == node && is_absolute_uri(t.object) && !seen.contains(t.subject) {
        Some(t.subject)
    } else {
        None
    }
}

/// The neighbours of `node` in `s`, in the order of the statements.
pub open spec fn neighbours(s: Statements, node: Seq<char>, seen: Seq<Seq<char>>) -> Seq<
    Seq<char>,
>
    decreases s.len(),
{
    if s.len() == 0 {
        Seq::empty()
    } else {
        match neighbour(s.last(), node, seen) {
            Some(found) => neighbours(s.drop_last(), node, seen).push(found),
            None => neighbours(s.drop_last(), node, seen),
        }
    }
}

/// `nodes` as queue entries, all at `depth`.
pub open spec fn at_depth(nodes: Seq<Seq<char>>, depth: nat) -> Frontier {
    Seq::new(nodes.len(), |i: int| (nodes[i], depth))
}

/// The subjects and objects of `s`.
pub open spec fn node_list(s: Statements) -> Seq<Seq<char>>
    decreases s.len(),
{
    if s.len() == 0 {
        Seq::empty()
    } else {
        node_list(s.drop_last()).push(s.last().subject).push(s.last().object)
    }
}

/// How many entries of `nodes` have not been expanded.
pub open spec fn unseen_count(nodes: Seq<Seq<char>>, seen: Seq<Seq<char>>) -> nat
    decreases nodes.len(),
{
    if nodes.len() == 0 {
        0
    } else if seen.contains(nodes.last()) {
        unseen_count(nodes.drop_last(), seen)
    } else {
        unseen_count(nodes.drop_last(), seen) + 1
    }
}

/// Every entity of `frontier` is a subject or an object of `s`.
pub open spec fn within(s: Statements, frontier: Frontier) -> bool {
    forall|i: int| 0 <= i < frontier.len() ==> node_list(s).contains((#[trigger] frontier[i]).0)
}

/// Expanding an entity that occurs in `nodes` leaves fewer entries to expand.
pub proof fn lemma_marking(nodes: Seq<Seq<char>>, seen: Seq<Seq<char>>, node: Seq<char>)
    ensures
        unseen_count(nodes, seen.push(node)) <= unseen_count(nodes, seen),
        nodes.contains(node) && !seen.contains(node) ==> unseen_count(nodes, seen.push(node))
            < unseen_count(nodes, seen),
    decreases nodes.len(),
{
    let marked = seen.push(node);
    assert(marked[seen.len() as int] == node);
    assert forall|x: Seq<char>| seen.contains(x) implies marked.contains(x) by {
        let i = choose|i: int| 0 <= i < seen.len() && seen[i] == x;
        assert(marked[i] == x);
    }
    assert forall|x: Seq<char>| marked.contains(x) implies seen.contains(x) || x == node by {
        let i = choose|i: int| 0 <= i < marked.len() && marked[i] == x;
        if i < seen.len() {
            assert(seen[i] == x);
        }
    }
    if nodes.len() > 0 {
        let init = nodes.drop_last();
        lemma_marking(init, seen, node);
        if nodes.contains(node) && !seen.contains(node) && nodes.last() != node {
            let i = choose|i: int| 0 <= i < nodes.len() && nodes[i] == node;
            assert(init[i] == node);
        }
    }
}

/// The subject and the object of every statement are in the node list.
pub proof fn lemma_node_list_holds(s: Statements, i: int)
    requires
        0 <= i < s.len(),
    ensures
        node_list(s).contains(s[i].subject),
        node_list(s).contains(s[i].object),
    decreases s.len(),
{
    let nodes = node_list(s);
    let init = node_list(s.drop_last());
    assert(nodes == init.push(s.last().subject).push(s.last().object));
    if i == s.len() - 1 {
        assert(nodes[nodes.len() - 2] == s[i].subject);
        assert(nodes[nodes.len() - 1] == s[i].object);
    } else {
        lemma_node_list_holds(s.drop_last(), i);
        assert(s.drop_last()[i] == s[i]);
        let a = choose|a: int| 0 <= a < init.len() && init[a] == s[i].subject;
        assert(nodes[a] == s[i].subject);
        let b = choose|b: int| 0 <= b < init.len() && init[b] == s[i].object;
        assert(nodes[b] == s[i].object);
    }
}

/// Every neighbour is a subject or an object of a statement.
pub proof fn lemma_neighbours_within(s: Statements, node: Seq<char>, seen: Seq<Seq<char>>, depth: nat)
    ensures
        within(s, at_depth(neighbours(s, node, seen), depth)),
        forall|k: int|
            0 <= k < neighbours(s, node, seen).len() ==> node_list(s).contains(
                #[trigger] neighbours(s, node, seen)[k],
            ),
    decreases s.len(),
{
    let found = neighbours(s, node, seen);
    assert forall|k: int| 0 <= k < found.len() implies node_list(s).contains(#[trigger] found[k]) by {
        let init = s.drop_last();
        let before = neighbours(init, node, seen);
        lemma_neighbours_within(init, node, seen, depth);
        lemma_node_list_holds(s, s.len() - 1);
        if k < before.len() {
            assert(found[k] == before[k]);
            let nodes = node_list(s);
            let a = choose|a: int| 0 <= a < node_list(init).len() && node_list(init)[a] == before[k];
            assert(nodes[a] == before[k]);
        }
    }
    assert forall|i: int| 0 <= i < at_depth(found, depth).len() implies node_list(s).contains(
        (#[trigger] at_depth(found, depth)[i]).0,
    ) by {
        assert(at_depth(found, depth)[i].0 == found[i]);
    }
}

/// What the walk records from the state it is in: `frontier` is the queue,
/// `seen` the entities expanded so far, `related` the entities recorded so
/// far.
pub open spec fn explore(
    s: Statements,
    max_depth: nat,
    frontier: Frontier,
    seen: Seq<Seq<char>>,
    related: Seq<Seq<char>>,
) -> Seq<Seq<char>>
    decreases unseen_count(node_list(s), seen), frontier.len(),
    when within(s, frontier)
{
    if frontier.len() == 0 {
        related
    } else {
        let node = frontier[0].0;
        let depth = frontier[0].1;
        let rest = frontier.drop_first();
        if depth >= max_depth || seen.contains(node) {
            explore(s, max_depth, rest, seen, related)
        } else {
            let marked = seen.push(node);
            let found = neighbours(s, node, marked);
            proof {
                lemma_marking(node_list(s), seen, node);
            }
            explore(s, max_depth, rest + at_depth(found, depth + 1), marked, related + found)
        }
    }
}

/// The entities related to `start` within `max_depth` steps, in the order in
/// which a breadth-first walk from `start` records them.
pub open spec fn related_entities(s: Statements, start: Seq<char>, max_depth: nat) -> Seq<
    Seq<char>,
> {
    if max_depth == 0 {
        Seq::empty()
    } else {
        let seen = seq![start];
        let found = neighbours(s, start, seen);
        explore(s, max_depth, at_depth(found, 1), seen, found)
    }
}

/// The queue that a vector of entities with their depths stands for.
pub open spec fn frontier_view(queue: Seq<(String, usize)>) -> Frontier {
    Seq::new(queue.len(), |i: int| (queue[i].0@, queue[i].1 as nat))
}

/// Decides whether `t` relates `node` to an entity not yet expanded.
fn find_neighbour<'a>(t: &'a RdfTriple, node: &str, seen: &Vec<String>) -> (found: Option<&'a String>)
    ensures
        match found {
            Some(n) => neighbour(t@, node@, texts(seen@)) == Some(n@),
            None => neighbour(t@, node@, texts(seen@)) is None,
        },
{
    let object_is_uri = is_absolute(t.object.as_str());
    if same_text(t.subject.as_str(), node) && object_is_uri && !contains_text(
        seen,
        t.object.as_str(),
    ) {
        Some(&t.object)
    } else if same_text(t.object.as_str(), node) && object_is_uri && !contains_text(
        seen,
        t.subject.as_str(),
    ) {
        Some(&t.subject)
    } else {
        None
    }
}

/// Records the neighbours of `node` and queues them one step deeper.
fn collect_neighbours(
    records: &Vec<RdfTriple>,
    node: &str,
    depth: usize,
    seen: &Vec<String>,
    related: &mut Vec<String>,
    frontier: &mut Vec<(String, usize)>,
)
    requires
        depth < usize::MAX,
    ensures
        texts(final(related)@) == texts(old(related)@) + neighbours(
            views(records@),
            node@,
            texts(seen@),
        ),
        frontier_view(final(frontier)@) == frontier_view(old(frontier)@) + at_depth(
            neighbours(views(records@), node@, texts(seen@)),
            (depth + 1) as nat,
        ),
{
    let ghost s = views(records@);
    let ghost related_before = texts(related@);
    let ghost frontier_before = frontier_view(frontier@);
    let mut i: usize = 0;
    assert(related_before + neighbours(s.take(0), node@, texts(seen@)) =~= related_before);
    assert(frontier_before + at_depth(
        neighbours(s.take(0), node@, texts(seen@)),
        (depth + 1) as nat,
    ) =~= frontier_before);
    while i < records.len()
        invariant
            i <= records.len(),
            depth < usize::MAX,
            s == views(records@),
            texts(related@) == related_before + neighbours(s.take(i as int), node@, texts(seen@)),
            frontier_view(frontier@) == frontier_before + at_depth(
                neighbours(s.take(i as int), node@, texts(seen@)),
                (depth + 1) as nat,
            ),
        decreases records.len() - i,
    {
        let ghost found_before = neighbours(s.take(i as int), node@, texts(seen@));
        let ghost related_now = texts(related@);
        let ghost frontier_now = frontier_view(frontier@);
        proof {
            let next = s.take(i + 1);
            assert(next.drop_last() == s.take(i as int));
            assert(next.last() == records@[i as int]@);
        }
        match find_neighbour(&records[i], node, seen) {
            Some(n) => {
                related.push(n.clone());
                frontier.push((n.clone(), depth + 1));
                assert(texts(related@) =~= related_now.push(n@));
                assert(frontier_view(frontier@) =~= frontier_now.push((n@, (depth + 1) as nat)));
                assert(related_before + found_before.push(n@) =~= related_now.push(n@));
                assert(frontier_before + at_depth(found_before.push(n@), (depth + 1) as nat)
                    =~= frontier_now.push((n@, (depth + 1) as nat)));
            },
            None => {},
        }
        i += 1;
    }
    assert(s.take(records@.len() as int) == s);
}

impl KnowledgeGraph {
    /// The entities related to `entity_uri` within `max_depth` steps, found
    /// breadth-first. With `max_depth` zero there are none.
    pub fn find_related_entities(&self, entity_uri: &str, max_depth: usize) -> (r: Result<
        Vec<String>,
        KnowledgeGraphError,
    >)
        ensures
            r is Ok,
            texts(r->Ok_0@) == related_entities(self@, entity_uri@, max_depth as nat),
            max_depth == 0 ==> r->Ok_0@.len() == 0,
    {
        let records = self.triples();
        let ghost s = views(records@);
        let mut related: Vec<String> = Vec::new();
        if max_depth == 0 {
            assert(texts(related@) =~= Seq::<Seq<char>>::empty());
            return Ok(related);
        }
        let mut seen: Vec<String> = Vec::new();
        seen.push(entity_uri.to_string());
        assert(texts(seen@) =~= seq![entity_uri@]);
        let mut frontier: Vec<(String, usize)> = Vec::new();
        assert(texts(related@) =~= Seq::<Seq<char>>::empty());
        assert(frontier_view(frontier@) =~= Frontier::empty());
        collect_neighbours(records, entity_uri, 0, &seen, &mut related, &mut frontier);
        proof {
            let found = neighbours(s, entity_uri@, texts(seen@));
            assert(texts(related@) =~= found);
            assert(frontier_view(frontier@) =~= at_depth(found, 1));
            lemma_neighbours_within(s, entity_uri@, texts(seen@), 1);
            assert(frontier_view(frontier@).skip(0) =~= frontier_view(frontier@));
            assert forall|i: int| 0 <= i < frontier.len() implies (#[trigger] frontier@[i]).1
                <= max_depth by {
                assert(frontier_view(frontier@)[i] == at_depth(found, 1)[i]);
            }
        }
        let mut head: usize = 0;
        while head < frontier.len()
            invariant
                head <= frontier.len(),
                max_depth > 0,
                s == views(records@),
                s == self@,
                within(s, frontier_view(frontier@)),
                forall|i: int| 0 <= i < frontier.len() ==> (#[trigger] frontier@[i]).1 <= max_depth,
                explore(
                    s,
                    max_depth as nat,
                    frontier_view(frontier@).skip(head as int),
                    texts(seen@),
                    texts(related@),
                ) == related_entities(s, entity_uri@, max_depth as nat),
            decreases unseen_count(node_list(s), texts(seen@)), frontier.len() - head,
        {
            let ghost queue = frontier_view(frontier@);
            let ghost waiting = queue.skip(head as int);
            let ghost seen_before = texts(seen@);
            let ghost related_before = texts(related@);
            let node = frontier[head].0.clone();
            let depth = frontier[head].1;
            proof {
                assert forall|i: int| 0 <= i < waiting.len() implies node_list(s).contains(
                    (#[trigger] waiting[i]).0,
                ) by {
                    assert(waiting[i] == queue[head + i]);
                }
                assert(waiting[0] == (node@, depth as nat));
                assert(waiting.drop_first() =~= queue.skip(head + 1));
                assert(node_list(s).contains(queue[head as int].0));
            }
            head += 1;
            if depth < max_depth && !contains_text(&seen, node.as_str()) {
                seen.push(node.clone());
                assert(texts(seen@) =~= seen_before.push(node@));
                collect_neighbours(records, node.as_str(), depth, &seen, &mut related, &mut frontier);
                proof {
                    let found = neighbours(s, node@, texts(seen@));
                    lemma_neighbours_within(s, node@, texts(seen@), (depth + 1) as nat);
                    lemma_marking(node_list(s), seen_before, node@);
                    let queue_after = frontier_view(frontier@);
                    assert(queue_after == queue + at_depth(found, (depth + 1) as nat));
                    assert forall|i: int| 0 <= i < queue_after.len() implies node_list(s).contains(
                        (#[trigger] queue_after[i]).0,
                    ) by {
                        if i < queue.len() {
                            assert(queue_after[i] == queue[i]);
                        } else {
                            assert(queue_after[i] == at_depth(found, (depth + 1) as nat)[i
                                - queue.len()]);
                        }
                    }
                    assert(queue_after.skip(head as int) =~= waiting.drop_first() + at_depth(
                        found,
                        (depth + 1) as nat,
                    ));
                    assert forall|i: int| 0 <= i < frontier.len() implies (
                    #[trigger] frontier@[i]).1 <= max_depth by {
                        if i >= queue.len() {
                            assert(queue_after[i].1 == frontier@[i].1);
                            assert(queue_after[i] == at_depth(found, (depth + 1) as nat)[i
                                - queue.len()]);
                        } else {
                            assert(queue_after[i] == queue[i]);
                            assert(queue_after[i].1 == frontier@[i].1);
                        }
                    }
                }
            }
        }
        assert(frontier_view(frontier@).skip(head as int) =~= Frontier::empty());
        Ok(related)
    }
}

} // verus!
