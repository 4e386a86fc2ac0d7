//! Navigation by subject and by type.

use vstd::prelude::*;

use crate::knowledge_graph::model::{views, Statements};
use crate::knowledge_graph::store::{KnowledgeGraph, KnowledgeGraphError};
use crate::text::{
    contains_ignoring_ascii_case, fold_ascii, has_substring, is_absolute, is_absolute_uri, join2,
    same_text, texts,
};
use crate::text_map::{find_from, lemma_find_from};
use crate::triple::TripleView;

verus! {

// ---------------------------------------------------------------------------
// Entities by type
// ---------------------------------------------------------------------------

/// The URI that a type name stands for: the name itself where it is an
/// absolute URI, and the name within `namespace` where it is not.
pub open spec fn resolve_type(namespace: Seq<char>, entity_type: Seq<char>) -> Seq<char> {
    if is_absolute_uri(entity_type) {
        entity_type
    } else {
        namespace + entity_type
    }
}

/// Whether `t` says that its subject is of the type `type_uri`: its predicate
/// contains `type`, whatever the case of its letters, and its object is
/// exactly `type_uri`.
pub open spec fn declares_type(t: TripleView, type_uri: Seq<char>) -> bool {
    has_substring(fold_ascii(t.predicate), "type"@) && t.object == type_uri
}

/// The subjects of the statements of `s` that declare the type `type_uri`,
/// in the order of the statements. A subject occurs once for each such
/// statement.
pub open spec fn subjects_of_type(s: Statements, type_uri: Seq<char>) -> Seq<Seq<char>>
    decreases s.len(),
{
    if s.len() == 0 {
        Seq::empty()
    } else if declares_type(s.last(), type_uri) {
        subjects_of_type(s.drop_last(), type_uri).push(s.last().subject)
    } else {
        subjects_of_type(s.drop_last(), type_uri)
    }
}

// ---------------------------------------------------------------------------
// Properties of an entity
// ---------------------------------------------------------------------------

/// The properties of an entity as contracts see them: pairs of a predicate
/// and the objects stated under it, the predicates in the order in which
/// they first occur.
pub type PropertyEntries = Seq<(Seq<char>, Seq<Seq<char>>)>;

/// The objects that `entries` holds for `predicate`.
pub open spec fn property_lookup(entries: PropertyEntries, predicate: Seq<char>) -> Option<
    Seq<Seq<char>>,
> {
    let at = find_from(entries, predicate, 0);
    if at < entries.len() {
        Some(entries[at].1)
    } else {
        None
    }
}

/// `entries` with `object` stated under `predicate`: appended to the objects
/// of that predicate where it is present, and as a new entry where it is not.
pub open spec fn add_property(
    entries: PropertyEntries,
    predicate: Seq<char>,
    object: Seq<char>,
) -> PropertyEntries {
    let at = find_from(entries, predicate, 0);
    if at < entries.len() {
        entries.update(at, (predicate, entries[at].1.push(object)))
    } else {
        entries.push((predicate, seq![object]))
    }
}

/// The properties of `entity` in `s`: every statement whose subject is
/// `entity` states its object under its predicate, in the order of the
/// statements.
pub open spec fn properties_of(s: Statements, entity: Seq<char>) -> PropertyEntries
    decreases s.len(),
{
    if s.len() == 0 {
        Seq::empty()
    } else if s.last().subject == entity {
        add_property(properties_of(s.drop_last(), entity), s.last().predicate, s.last().object)
    } else {
        properties_of(s.drop_last(), entity)
    }
}

/// The objects of the statements of `s` with the subject `entity` and the
/// predicate `predicate`, in the order of the statements.
pub open spec fn objects_of(s: Statements, entity: Seq<char>, predicate: Seq<char>) -> Seq<
    Seq<char>,
>
    decreases s.len(),
{
    if s.len() == 0 {
        Seq::empty()
    } else if s.last().subject == entity && s.last().predicate == predicate {
        objects_of(s.drop_last(), entity, predicate).push(s.last().object)
    } else {
        objects_of(s.drop_last(), entity, predicate)
    }
}

/// Two entry lists that agree on the keys before the first match of
/// `predicate` find it at the same place.
proof fn lemma_same_keys_same_place(
    a: PropertyEntries,
    b: PropertyEntries,
    predicate: Seq<char>,
    from: int,
)
    requires
        0 <= from <= a.len() <= b.len(),
        forall|i: int| 0 <= i < a.len() ==> (#[trigger] a[i]).0 == (#[trigger] b[i]).0,
    ensures
        find_from(a, predicate, from) < a.len() ==> find_from(b, predicate, from)
            == find_from(a, predicate, from),
        find_from(a, predicate, from) == a.len() ==> find_from(b, predicate, from)
            == find_from(b, predicate, a.len() as int),
    decreases a.len() - from,
{
    if from < a.len() {
        assert(a[from].0 == b[from].0);
        if a[from].0 != predicate {
            lemma_same_keys_same_place(a, b, predicate, from + 1);
        }
    }
}

/// The properties of an entity hold, under each predicate, exactly the
/// objects stated of the entity under that predicate, in the order of the
/// statements; a predicate under which nothing is stated has no entry.
pub proof fn lemma_properties_hold_objects(s: Statements, entity: Seq<char>, predicate: Seq<char>)
    ensures
        property_lookup(properties_of(s, entity), predicate) == if objects_of(
            s,
            entity,
            predicate,
        ).len() > 0 {
            Some(objects_of(s, entity, predicate))
        } else {
            None
        },
    decreases s.len(),
{
    if s.len() > 0 {
        let init = s.drop_last();
        let t = s.last();
        lemma_properties_hold_objects(init, entity, predicate);
        if t.subject == entity {
            let before = properties_of(init, entity);
            let after = add_property(before, t.predicate, t.object);
            let at = find_from(before, t.predicate, 0);
            lemma_find_from(before, t.predicate, 0);
            lemma_find_from(before, predicate, 0);
            lemma_find_from(after, predicate, 0);
            let found = find_from(after, predicate, 0);
            if at < before.len() {
                assert forall|i: int| 0 <= i < before.len() implies (#[trigger] before[i]).0 == (
                #[trigger] after[i]).0 by {}
                lemma_same_keys_same_place(before, after, predicate, 0);
                if find_from(before, predicate, 0) == before.len() {
                    assert(after.len() == before.len());
                }
            } else {
                assert forall|i: int| 0 <= i < before.len() implies (#[trigger] before[i]).0 == (
                #[trigger] after[i]).0 by {}
                lemma_same_keys_same_place(before, after, predicate, 0);
                lemma_find_from(after, predicate, before.len() as int);
                assert(after[before.len() as int].0 == t.predicate);
            }
            if t.predicate == predicate {
                if at < before.len() {
                    assert(found == at);
                } else {
                    assert(found == before.len());
                    assert(seq![t.object] =~= Seq::<Seq<char>>::empty().push(t.object));
                }
            } else {
                if found < after.len() {
                    assert(after[found].0 == predicate);
                    assert(found != at);
                    if found < before.len() {
                        assert(after[found] == before[found]);
                    }
                }
            }
        }
    }
}

/// The properties of one entity: for each predicate stated of it, the
/// objects stated under that predicate.
#[derive(Debug)]
pub struct EntityProperties {
    entries: Vec<(String, Vec<String>)>,
}

/// The entries that a vector of predicates with their objects stands for.
pub open spec fn property_views(entries: Seq<(String, Vec<String>)>) -> PropertyEntries {
    Seq::new(entries.len(), |i: int| (entries[i].0@, texts(entries[i].1@)))
}

impl View for EntityProperties {
    type V = PropertyEntries;

    closed spec fn view(&self) -> PropertyEntries {
        property_views(self.entries@)
    }
}

impl EntityProperties {
    /// The number of predicates.
    pub fn len(&self) -> (n: usize)
        ensures
            n == self@.len(),
    {
        self.entries.len()
    }

    /// Whether nothing is stated of the entity.
    pub fn is_empty(&self) -> (b: bool)
        ensures
            b == (self@.len() == 0),
    {
        self.entries.len() == 0
    }

    /// The predicate of the entry at `index`.
    pub fn predicate_at(&self, index: usize) -> (predicate: &String)
        requires
            index < self@.len(),
        ensures
            predicate@ == self@[index as int].0,
    {
        &self.entries[index].0
    }

    /// The objects of the entry at `index`.
    pub fn objects_at(&self, index: usize) -> (objects: &Vec<String>)
        requires
            index < self@.len(),
        ensures
            texts(objects@) == self@[index as int].1,
    {
        &self.entries[index].1
    }

    /// The objects stated under `predicate`, if there are any.
    pub fn get(&self, predicate: &str) -> (objects: Option<&Vec<String>>)
        ensures
            match objects {
                Some(found) => property_lookup(self@, predicate@) == Some(texts(found@)),
                None => property_lookup(self@, predicate@) is None,
            },
    {
        let at = find_property(&self.entries, predicate);
        if at < self.entries.len() {
            Some(&self.entries[at].1)
        } else {
            None
        }
    }
}

/// The index of the entry for `predicate`, or the number of entries.
fn find_property(entries: &Vec<(String, Vec<String>)>, predicate: &str) -> (at: usize)
    ensures
        at == find_from(property_views(entries@), predicate@, 0),
        at <= entries.len(),
{
    let mut i: usize = 0;
    while i < entries.len()
        invariant
            i <= entries.len(),
            find_from(property_views(entries@), predicate@, 0) == find_from(
                property_views(entries@),
                predicate@,
                i as int,
            ),
        decreases entries.len() - i,
    {
        assert(property_views(entries@)[i as int].0 == entries[i as int].0@);
        if same_text(entries[i].0.as_str(), predicate) {
            return i;
        }
        i += 1;
    }
    i
}

/// States `object` under `predicate`.
fn record_property(entries: &mut Vec<(String, Vec<String>)>, predicate: &String, object: &String)
    ensures
        property_views(final(entries)@) == add_property(
            property_views(old(entries)@),
            predicate@,
            object@,
        ),
{
    let ghost before = property_views(entries@);
    let at = find_property(entries, predicate.as_str());
    proof {
        lemma_find_from(before, predicate@, 0);
    }
    if at < entries.len() {
        assert(before[at as int].0 == entries@[at as int].0@);
        let mut entry = (String::new(), Vec::new());
        std::mem::swap(&mut entries[at], &mut entry);
        let ghost objects_before = texts(entry.1@);
        entry.1.push(object.clone());
        assert(texts(entry.1@) =~= objects_before.push(object@));
        assert(entry.0@ == predicate@);
        std::mem::swap(&mut entries[at], &mut entry);
        assert(property_views(entries@) =~= before.update(
            at as int,
            (predicate@, before[at as int].1.push(object@)),
        ));
    } else {
        let mut objects: Vec<String> = Vec::new();
        objects.push(object.clone());
        assert(texts(objects@) =~= seq![object@]);
        entries.push((predicate.clone(), objects));
        assert(property_views(entries@) =~= before.push((predicate@, seq![object@])));
    }
}

impl KnowledgeGraph {
    /// The subjects of the statements that declare the type `entity_type`,
    /// in the order of the store. A name that is no absolute URI is taken
    /// within the namespace of the schema. A statement declares a type when
    /// its predicate contains `type`, in small or capital letters, so an
    /// unrelated predicate that happens to contain it counts too.
    pub fn get_entities_by_type(&self, entity_type: &str) -> (r: Result<
        Vec<String>,
        KnowledgeGraphError,
    >)
        ensures
            r is Ok,
            texts(r->Ok_0@) == subjects_of_type(
                self@,
                resolve_type(self.schema_of().namespace@, entity_type@),
            ),
    {
        let type_uri = if is_absolute(entity_type) {
            entity_type.to_string()
        } else {
            join2(self.schema().namespace.as_str(), entity_type)
        };
        let records = self.triples();
        let mut entities: Vec<String> = Vec::new();
        let mut i: usize = 0;
        assert(texts(entities@) =~= subjects_of_type(views(records@).take(0), type_uri@));
        while i < records.len()
            invariant
                i <= records.len(),
                texts(entities@) == subjects_of_type(views(records@).take(i as int), type_uri@),
            decreases records.len() - i,
        {
            let ghost before = texts(entities@);
            proof {
                let next = views(records@).take(i + 1);
                assert(next.drop_last() == views(records@).take(i as int));
                assert(next.last() == records@[i as int]@);
            }
            if contains_ignoring_ascii_case(records[i].predicate.as_str(), "type") && same_text(
                records[i].object.as_str(),
                type_uri.as_str(),
            ) {
                entities.push(records[i].subject.clone());
                assert(texts(entities@) =~= before.push(records@[i as int]@.subject));
            }
            i += 1;
        }
        assert(views(records@).take(records@.len() as int) == views(records@));
        Ok(entities)
    }

    /// The properties of `entity_uri`: for each predicate stated of it, the
    /// objects stated under that predicate, all of them, in the order of the
    /// store. The predicates come in the order in which they first occur.
    pub fn get_entity_properties(&self, entity_uri: &str) -> (r: Result<
        EntityProperties,
        KnowledgeGraphError,
    >)
        ensures
            r is Ok,
            r->Ok_0@ == properties_of(self@, entity_uri@),
    {
        let records = self.triples();
        let mut entries: Vec<(String, Vec<String>)> = Vec::new();
        let mut i: usize = 0;
        assert(property_views(entries@) =~= properties_of(views(records@).take(0), entity_uri@));
        while i < records.len()
            invariant
                i <= records.len(),
                property_views(entries@) == properties_of(
                    views(records@).take(i as int),
                    entity_uri@,
                ),
            decreases records.len() - i,
        {
            proof {
                let next = views(records@).take(i + 1);
                assert(next.drop_last() == views(records@).take(i as int));
                assert(next.last() == records@[i as int]@);
            }
            if same_text(records[i].subject.as_str(), entity_uri) {
                record_property(&mut entries, &records[i].predicate, &records[i].object);
            }
            i += 1;
        }
        assert(views(records@).take(records@.len() as int) == views(records@));
        Ok(EntityProperties { entries })
    }
}

} // verus!
