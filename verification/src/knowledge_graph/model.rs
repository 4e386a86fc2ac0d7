//! The mathematical model of a store: a sequence of statements in which no
//! identity occurs twice, and what inserting a batch does to it.

use vstd::prelude::*;

use crate::triple::{RdfTriple, TripleKey, TripleView};

verus! {

/// The statements of a store, oldest first.
pub type Statements = Seq<TripleView>;

/// The statements that a sequence of records stands for.
pub open spec fn views(records: Seq<RdfTriple>) -> Statements {
    Seq::new(records.len(), |i: int| records[i]@)
}

/// Some statement of `s` has the identity `key`.
pub open spec fn has_key(s: Statements, key: TripleKey) -> bool {
    exists|i: int| 0 <= i < s.len() && (#[trigger] s[i]).key() == key
}

/// No two statements of `s` have the same identity.
pub open spec fn distinct(s: Statements) -> bool {
    forall|i: int, j: int| 0 <= i < j < s.len() ==> (#[trigger] s[i]).key() != (#[trigger] s[j]).key()
}

/// The store `store` after the candidates of `batch` were offered to it in
/// order: a candidate is appended unless a statement with its identity is
/// already there, be it from the store or from an earlier candidate.
pub open spec fn absorb(store: Statements, batch: Statements) -> Statements
    decreases batch.len(),
{
    if batch.len() == 0 {
        store
    } else {
        let before = absorb(store, batch.drop_last());
        if has_key(before, batch.last().key()) {
            before
        } else {
            before.push(batch.last())
        }
    }
}

/// Appending one candidate to a batch offers it last.
pub proof fn lemma_absorb_push(store: Statements, batch: Statements, t: TripleView)
    ensures
        absorb(store, batch.push(t)) == if has_key(absorb(store, batch), t.key()) {
            absorb(store, batch)
        } else {
            absorb(store, batch).push(t)
        },
{
    assert(batch.push(t).drop_last() == batch);
    assert(batch.push(t).last() == t);
}

/// Inserting only appends: the store as it was is the beginning of the store
/// as it becomes.
pub proof fn lemma_absorb_extends(store: Statements, batch: Statements)
    ensures
        store.is_prefix_of(absorb(store, batch)),
        absorb(store, batch).len() <= store.len() + batch.len(),
    decreases batch.len(),
{
    if batch.len() > 0 {
        lemma_absorb_extends(store, batch.drop_last());
    }
}

/// Inserting keeps the identities of a store distinct.
pub proof fn lemma_absorb_distinct(store: Statements, batch: Statements)
    requires
        distinct(store),
    ensures
        distinct(absorb(store, batch)),
    decreases batch.len(),
{
    if batch.len() > 0 {
        lemma_absorb_distinct(store, batch.drop_last());
        let before = absorb(store, batch.drop_last());
        let t = batch.last();
        if !has_key(before, t.key()) {
            let after = before.push(t);
            assert forall|i: int, j: int| 0 <= i < j < after.len() implies (#[trigger] after[i]).key()
                != (#[trigger] after[j]).key() by {
                if j == before.len() {
                    assert(before[i].key() != t.key());
                } else {
                    assert(after[i] == before[i]);
                    assert(after[j] == before[j]);
                }
            }
        }
    }
}

/// After a batch was inserted, every identity of the store and of the batch
/// is present.
pub proof fn lemma_absorb_covers(store: Statements, batch: Statements)
    ensures
        forall|i: int| 0 <= i < store.len() ==> has_key(absorb(store, batch), (#[trigger] store[i]).key()),
        forall|i: int| 0 <= i < batch.len() ==> has_key(absorb(store, batch), (#[trigger] batch[i]).key()),
    decreases batch.len(),
{
    let after = absorb(store, batch);
    lemma_absorb_extends(store, batch);
    assert forall|i: int| 0 <= i < store.len() implies has_key(after, (#[trigger] store[i]).key()) by {
        assert(after[i] == store[i]);
    }
    if batch.len() > 0 {
        let init = batch.drop_last();
        let before = absorb(store, init);
        lemma_absorb_covers(store, init);
        assert forall|i: int| 0 <= i < batch.len() implies has_key(after, (#[trigger] batch[i]).key()) by {
            if i < init.len() {
                assert(init[i] == batch[i]);
                assert(has_key(before, init[i].key()));
                let w = choose|w: int| 0 <= w < before.len() && (#[trigger] before[w]).key() == init[i].key();
                assert(after[w] == before[w]);
            } else {
                if !has_key(before, batch.last().key()) {
                    assert(after[before.len() as int] == batch.last());
                }
            }
        }
    }
}

/// A batch whose identities are all present changes nothing.
pub proof fn lemma_absorb_nothing_new(store: Statements, batch: Statements)
    requires
        forall|i: int| 0 <= i < batch.len() ==> has_key(store, (#[trigger] batch[i]).key()),
    ensures
        absorb(store, batch) == store,
    decreases batch.len(),
{
    if batch.len() > 0 {
        let init = batch.drop_last();
        assert forall|i: int| 0 <= i < init.len() implies has_key(store, (#[trigger] init[i]).key()) by {
            assert(init[i] == batch[i]);
        }
        lemma_absorb_nothing_new(store, init);
        assert(batch.last() == batch[batch.len() - 1]);
    }
}

/// A batch without repeated identities, none of them present, is appended
/// whole.
pub proof fn lemma_absorb_all_new(store: Statements, batch: Statements)
    requires
        distinct(batch),
        forall|i: int| 0 <= i < batch.len() ==> !has_key(store, (#[trigger] batch[i]).key()),
    ensures
        absorb(store, batch) == store + batch,
    decreases batch.len(),
{
    if batch.len() > 0 {
        let init = batch.drop_last();
        let t = batch.last();
        assert forall|i: int| 0 <= i < init.len() implies !has_key(store, (#[trigger] init[i]).key()) by {
            assert(init[i] == batch[i]);
        }
        assert forall|i: int, j: int| 0 <= i < j < init.len() implies (#[trigger] init[i]).key() != (
        #[trigger] init[j]).key() by {
            assert(init[i] == batch[i]);
            assert(init[j] == batch[j]);
        }
        lemma_absorb_all_new(store, init);
        let before = store + init;
        if has_key(before, t.key()) {
            let w = choose|w: int| 0 <= w < before.len() && (#[trigger] before[w]).key() == t.key();
            if w < store.len() {
                assert(store[w].key() == t.key());
                assert(has_key(store, batch[batch.len() - 1].key()));
            } else {
                assert(before[w] == batch[w - store.len()]);
                assert(batch[w - store.len()].key() != batch[batch.len() - 1].key());
            }
        }
        assert((store + init).push(t) =~= store + batch);
    } else {
        assert(store + batch =~= store);
    }
}

} // verus!
