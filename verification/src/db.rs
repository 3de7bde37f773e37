//! The in-memory repositories: the entries of the tree and the schema's definitions.

use crate::entity::entry::{empty_entry, entry_wf, Entry, EntryId, EntryView};
use crate::entity::schema::{Attribute, AttributeView, ObjectClass, ObjectClassView, Oid};
use crate::errors::LdapError;
use crate::text::{decimal, decimal_spec, str_eq};
use vstd::prelude::*;
use vstd::string::*;

verus! {

/// A `u64` drawn by `rand::random`: any value may come back.
#[verifier::external_body]
fn random_u64() -> (r: u64) {
    rand::random()
}

/// A `char` drawn by `rand::random`: any character may come back.
#[verifier::external_body]
fn random_char() -> (r: char) {
    rand::random()
}

/// `String::push`: appends one character to the string.
#[verifier::external_body]
fn push_char(s: &mut String, c: char)
    ensures
        final(s)@ == old(s)@.push(c),
{
    s.push(c)
}

/// A string of ten characters drawn at random.
pub fn random_string_id() -> (r: String)
    ensures
        r@.len() == 10,
{
    let mut s = String::new();
    let mut i: usize = 0;
    while i < 10
        invariant
            i <= 10,
            s@.len() == i,
        decreases 10 - i,
    {
        push_char(&mut s, random_char());
        i += 1;
    }
    s
}

impl EntryId for u64 {
    open spec fn root_view() -> u64 {
        0
    }

    open spec fn default_view() -> u64 {
        0
    }

    open spec fn text_of(v: u64) -> Seq<char> {
        decimal_spec(v as nat)
    }

    fn new_random_id() -> u64 {
        random_u64()
    }

    fn root_identifier() -> (r: u64) {
        0
    }

    fn default_id() -> (r: u64) {
        0
    }

    fn clone_id(&self) -> (r: u64) {
        *self
    }

    fn same_id(&self, other: &u64) -> (r: bool) {
        *self == *other
    }

    fn id_text(&self) -> (r: String) {
        decimal(*self)
    }
}

impl EntryId for String {
    open spec fn root_view() -> Seq<char> {
        "root"@
    }

    open spec fn default_view() -> Seq<char> {
        Seq::empty()
    }

    open spec fn text_of(v: Seq<char>) -> Seq<char> {
        v
    }

    /// Ten characters, each drawn at random.
    fn new_random_id() -> (r: String)
        ensures
            r@.len() == 10,
    {
        random_string_id()
    }

    fn root_identifier() -> (r: String) {
        String::from_str("root")
    }

    fn default_id() -> (r: String) {
        String::new()
    }

    fn clone_id(&self) -> (r: String) {
        self.clone()
    }

    fn same_id(&self, other: &String) -> (r: bool) {
        str_eq(self.as_str(), other.as_str())
    }

    fn id_text(&self) -> (r: String) {
        self.clone()
    }
}

/// Some entry of `m` has the identifier `id`.
pub open spec fn repo_has<V>(m: Seq<EntryView<V>>, id: V) -> bool {
    exists|i: int| 0 <= i < m.len() && (#[trigger] m[i]).id == Some(id)
}

/// The place of an entry of `m` with the identifier `id`.
pub open spec fn repo_index<V>(m: Seq<EntryView<V>>, id: V) -> int {
    choose|i: int| 0 <= i < m.len() && (#[trigger] m[i]).id == Some(id)
}

/// The entry of `m` with the identifier `id`.
pub open spec fn repo_get<V>(m: Seq<EntryView<V>>, id: V) -> Option<EntryView<V>> {
    if repo_has(m, id) {
        Some(m[repo_index(m, id)])
    } else {
        None
    }
}

/// Every entry is well formed and has an identifier, and no two share one.
pub open spec fn repo_wf<V>(m: Seq<EntryView<V>>) -> bool {
    &&& forall|i: int| 0 <= i < m.len() ==> (#[trigger] m[i]).id is Some && entry_wf(m[i])
    &&& forall|i: int, j: int|
        0 <= i < m.len() && 0 <= j < m.len() && i != j ==> (#[trigger] m[i]).id != (#[trigger] m[j]).id
}

/// `m` with `e` in place of the entry of the same identifier, or at its end.
pub open spec fn store_spec<V>(m: Seq<EntryView<V>>, e: EntryView<V>) -> Seq<EntryView<V>> {
    if repo_has(m, e.id.unwrap()) {
        m.update(repo_index(m, e.id.unwrap()), e)
    } else {
        m.push(e)
    }
}

/// `m` after storing each entry of `es` in turn.
pub open spec fn store_all_spec<V>(m: Seq<EntryView<V>>, es: Seq<EntryView<V>>) -> Seq<EntryView<V>>
    decreases es.len(),
{
    if es.len() == 0 {
        m
    } else {
        store_all_spec(store_spec(m, es[0]), es.drop_first())
    }
}

/// The view of the root entry that is made where none is stored.
pub open spec fn fresh_root<ID: EntryId>() -> EntryView<ID::V> {
    EntryView { id: Some(ID::root_view()), ..empty_entry::<ID>() }
}

/// `m`, with a fresh root entry at its end where it holds no root.
pub open spec fn with_root<ID: EntryId>(m: Seq<EntryView<ID::V>>) -> Seq<EntryView<ID::V>> {
    if repo_has(m, ID::root_view()) {
        m
    } else {
        m.push(fresh_root::<ID>())
    }
}

/// What storing does to lookups: the stored entry is found under its
/// identifier, and every other identifier finds what it found before.
pub proof fn lemma_store<V>(m: Seq<EntryView<V>>, e: EntryView<V>)
    requires
        repo_wf(m),
        e.id is Some,
        entry_wf(e),
    ensures
        repo_wf(store_spec(m, e)),
        repo_get(store_spec(m, e), e.id.unwrap()) == Some(e),
        forall|o: V| o != e.id.unwrap() ==> repo_get(store_spec(m, e), o) == repo_get(m, o),
        store_spec(m, e).len() >= m.len(),
{
    let p = store_spec(m, e);
    let id = e.id.unwrap();
    let at: int = if repo_has(m, id) {
        repo_index(m, id)
    } else {
        m.len() as int
    };
    assert(p[at].id == Some(id));
    assert(repo_has(p, id));
    assert forall|o: V| o != id implies repo_get(p, o) == repo_get(m, o) by {
        if repo_has(m, o) {
            let j = repo_index(m, o);
            assert(p[j].id == Some(o));
            let j2 = repo_index(p, o);
            assert(m[j2].id == Some(o));
        }
        if repo_has(p, o) {
            let j = repo_index(p, o);
            assert(m[j].id == Some(o));
        }
    }
}

/// What storing leaves in the repository: the stored entry, and entries that were there.
pub proof fn lemma_store_members<V>(m: Seq<EntryView<V>>, e: EntryView<V>)
    ensures
        forall|i: int|
            0 <= i < store_spec(m, e).len() ==> (#[trigger] store_spec(m, e)[i]) == e || exists|j: int|
                0 <= j < m.len() && m[j] == store_spec(m, e)[i],
{
    let p = store_spec(m, e);
    assert forall|i: int| 0 <= i < p.len() implies (#[trigger] p[i]) == e || exists|j: int|
        0 <= j < m.len() && m[j] == p[i] by {
        if p[i] != e {
            assert(m[i] == p[i]);
        }
    }
}

/// The views of a list of entries.
pub open spec fn entry_views<ID: EntryId>(es: Seq<Entry<ID>>) -> Seq<EntryView<ID::V>> {
    es.map_values(|e: Entry<ID>| e@)
}

/// A repository of entries, each stored under its identifier.
pub trait EntryRepository<ID: EntryId> {
    /// The stored entries.
    spec fn entries(&self) -> Seq<EntryView<ID::V>>;

    /// The root entry. Where no root is stored, an empty one is stored first.
    fn get_root_entry(&mut self) -> (r: Entry<ID>)
        requires
            repo_wf(old(self).entries()),
        ensures
            repo_wf(final(self).entries()),
            final(self).entries() == with_root::<ID>(old(self).entries()),
            repo_get(final(self).entries(), ID::root_view()) == Some(r@),
    ;

    /// The entry with the identifier `id`.
    fn get_by_id(&self, id: &ID) -> (r: Option<Entry<ID>>)
        requires
            repo_wf(self.entries()),
        ensures
            match r {
                Some(e) => repo_get(self.entries(), id@) == Some(e@),
                None => repo_get(self.entries(), id@) is None,
            },
    ;

    /// Stores `entry`. An entry without identifier is given `fresh` first.
    /// Returns the entry as it was stored.
    fn save_with_id(&mut self, entry: Entry<ID>, fresh: ID) -> (r: Entry<ID>)
        requires
            repo_wf(old(self).entries()),
            entry.wf(),
        ensures
            repo_wf(final(self).entries()),
            r@ == stamped(entry@, fresh@),
            final(self).entries() == store_spec(old(self).entries(), r@),
    ;

    /// Stores `entry`. An entry without identifier is given a new random one
    /// first. Returns the entry as it was stored.
    fn save(&mut self, entry: Entry<ID>) -> (r: Result<Entry<ID>, LdapError>)
        requires
            repo_wf(old(self).entries()),
            entry.wf(),
        ensures
            repo_wf(final(self).entries()),
            r matches Ok(e) && e@.id is Some && e@ == stamped(entry@, e@.id.unwrap())
                && final(self).entries() == store_spec(old(self).entries(), e@),
    ;
}

/// The entries of the directory, each under its identifier.
#[derive(Debug)]
pub struct InMemLdapDb<ID: EntryId> {
    entries: Vec<Entry<ID>>,
}

impl<ID: EntryId> View for InMemLdapDb<ID> {
    type V = Seq<EntryView<ID::V>>;

    /// The stored entries, in the order in which their identifiers were first stored.
    closed spec fn view(&self) -> Seq<EntryView<ID::V>> {
        entry_views(self.entries@)
    }
}

impl<ID: EntryId> InMemLdapDb<ID> {
    /// Every entry is well formed and has an identifier, and no two share one.
    pub open spec fn wf(&self) -> bool {
        repo_wf(self@)
    }

    pub fn new() -> (r: Self)
        ensures
            r.wf(),
            r@ == Seq::<EntryView<ID::V>>::empty(),
    {
        let r = InMemLdapDb { entries: Vec::new() };
        assert(r@ =~= Seq::<EntryView<ID::V>>::empty());
        r
    }

    /// A repository of the given entries, each stored in turn.
    pub fn with_entries(entries: Vec<Entry<ID>>) -> (r: Self)
        requires
            forall|i: int| 0 <= i < entries@.len() ==> (#[trigger] entries@[i])@.id is Some && entries@[i].wf(),
        ensures
            r.wf(),
            r@ == store_all_spec(Seq::empty(), entry_views(entries@)),
    {
        let mut db: InMemLdapDb<ID> = InMemLdapDb::new();
        let mut i: usize = 0;
        let ghost all = entry_views(entries@);
        proof {
            assert(all.skip(0) =~= all);
        }
        while i < entries.len()
            invariant
                i <= entries.len(),
                db.wf(),
                all == entry_views(entries@),
                forall|k: int|
                    0 <= k < entries@.len() ==> (#[trigger] entries@[k])@.id is Some && entries@[k].wf(),
                store_all_spec(db@, all.skip(i as int)) == store_all_spec(Seq::empty(), all),
            decreases entries.len() - i,
        {
            proof {
                assert(all.skip(i as int).drop_first() =~= all.skip(i as int + 1));
                assert(all.skip(i as int)[0] == entries@[i as int]@);
            }
            db.store(entries[i].clone());
            i += 1;
        }
        proof {
            assert(all.skip(i as int) =~= Seq::<EntryView<ID::V>>::empty());
        }
        db
    }

    /// The number of entries.
    pub fn len(&self) -> (n: usize)
        ensures
            n == self@.len(),
    {
        self.entries.len()
    }

    /// The place of the entry with the identifier `id`.
    fn position(&self, id: &ID) -> (r: Option<usize>)
        ensures
            match r {
                Some(i) => i < self@.len() && self@[i as int].id == Some(id@) && repo_has(self@, id@),
                None => !repo_has(self@, id@),
            },
            self.wf() ==> (r matches Some(i) ==> i == repo_index(self@, id@)),
    {
        let mut i: usize = 0;
        while i < self.entries.len()
            invariant
                i <= self.entries.len(),
                forall|k: int| 0 <= k < i ==> (#[trigger] self@[k]).id != Some(id@),
            decreases self.entries.len() - i,
        {
            let found = match self.entries[i].get_id() {
                Some(other) => other.same_id(id),
                None => false,
            };
            if found {
                assert(self@[i as int].id == Some(id@));
                return Some(i);
            }
            i += 1;
        }
        None
    }

    /// Stores `entry` under its identifier, in place of what was stored there.
    pub fn store(&mut self, entry: Entry<ID>)
        requires
            old(self).wf(),
            entry.wf(),
            entry@.id is Some,
        ensures
            final(self).wf(),
            final(self)@ == store_spec(old(self)@, entry@),
    {
        proof {
            lemma_store(self@, entry@);
        }
        let id = entry.get_id();
        match id {
            Some(id) => {
                match self.position(&id) {
                    Some(i) => {
                        self.entries.set(i, entry);
                        assert(self@ =~= store_spec(old(self)@, entry@));
                    },
                    None => {
                        self.entries.push(entry);
                        assert(self@ =~= store_spec(old(self)@, entry@));
                    },
                }
            },
            None => {},
        }
    }
}

impl<ID: EntryId> EntryRepository<ID> for InMemLdapDb<ID> {
    open spec fn entries(&self) -> Seq<EntryView<ID::V>> {
        self@
    }

    /// Stores `entry`. An entry without identifier is given `fresh` first.
    /// Returns the entry as it was stored.
    fn save_with_id(&mut self, entry: Entry<ID>, fresh: ID) -> (r: Entry<ID>) {
        let mut entry = entry;
        if entry.get_id().is_none() {
            entry.set_id(&fresh);
        }
        let stored = entry.clone();
        self.store(entry);
        stored
    }

    /// Stores `entry`. An entry without identifier is given a new random one
    /// first. Returns the entry as it was stored.
    fn save(&mut self, entry: Entry<ID>) -> (r: Result<Entry<ID>, LdapError>) {
        let fresh = ID::new_random_id();
        Ok(self.save_with_id(entry, fresh))
    }

    /// The entry with the identifier `id`.
    fn get_by_id(&self, id: &ID) -> (r: Option<Entry<ID>>) {
        match self.position(id) {
            Some(i) => Some(self.entries[i].clone()),
            None => None,
        }
    }

    /// The root entry. Where no root is stored, an empty one is stored first.
    fn get_root_entry(&mut self) -> (r: Entry<ID>) {
        let root_id = ID::root_identifier();
        match self.position(&root_id) {
            Some(i) => self.entries[i].clone(),
            None => {
                let mut root: Entry<ID> = Entry::default();
                root.set_id(&root_id);
                let stored = root.clone();
                proof {
                    lemma_store(self@, root@);
                }
                self.store(root);
                stored
            },
        }
    }
}

/// `e` with the identifier `fresh`, unless it has one already.
pub open spec fn stamped<V>(e: EntryView<V>, fresh: V) -> EntryView<V> {
    if e.id is Some {
        e
    } else {
        EntryView { id: Some(fresh), ..e }
    }
}

/// The place of an object class of `classes` with the identifier `oid`.
pub open spec fn class_index(classes: Seq<ObjectClassView>, oid: Seq<char>) -> int {
    choose|i: int| 0 <= i < classes.len() && (#[trigger] classes[i]).numericoid == oid
}

/// The object class of `classes` with the identifier `oid`.
pub open spec fn class_by_oid(classes: Seq<ObjectClassView>, oid: Seq<char>) -> Option<
    ObjectClassView,
> {
    if exists|i: int| 0 <= i < classes.len() && (#[trigger] classes[i]).numericoid == oid {
        Some(classes[class_index(classes, oid)])
    } else {
        None
    }
}

/// The place of an attribute type of `attrs` with the identifier `oid`.
pub open spec fn attr_index(attrs: Seq<AttributeView>, oid: Seq<char>) -> int {
    choose|i: int| 0 <= i < attrs.len() && (#[trigger] attrs[i]).numericoid == oid
}

/// The attribute type of `attrs` with the identifier `oid`.
pub open spec fn attr_by_oid(attrs: Seq<AttributeView>, oid: Seq<char>) -> Option<AttributeView> {
    if exists|i: int| 0 <= i < attrs.len() && (#[trigger] attrs[i]).numericoid == oid {
        Some(attrs[attr_index(attrs, oid)])
    } else {
        None
    }
}

/// `i` is the place of the first object class of `classes` that has the name `name`.
pub open spec fn class_named_at(classes: Seq<ObjectClassView>, name: Seq<char>, i: int) -> bool {
    &&& 0 <= i < classes.len()
    &&& classes[i].names.contains(name)
    &&& forall|j: int| 0 <= j < i ==> !(#[trigger] classes[j]).names.contains(name)
}

/// The first object class of `classes` that has the name `name`.
pub open spec fn class_by_name(classes: Seq<ObjectClassView>, name: Seq<char>) -> Option<
    ObjectClassView,
> {
    if exists|i: int| class_named_at(classes, name, i) {
        Some(classes[choose|i: int| class_named_at(classes, name, i)])
    } else {
        None
    }
}

/// `i` is the place of the first attribute type of `attrs` that has the name `name`.
pub open spec fn attr_named_at(attrs: Seq<AttributeView>, name: Seq<char>, i: int) -> bool {
    &&& 0 <= i < attrs.len()
    &&& attrs[i].names.contains(name)
    &&& forall|j: int| 0 <= j < i ==> !(#[trigger] attrs[j]).names.contains(name)
}

/// The first attribute type of `attrs` that has the name `name`.
pub open spec fn attr_by_name(attrs: Seq<AttributeView>, name: Seq<char>) -> Option<AttributeView> {
    if exists|i: int| attr_named_at(attrs, name, i) {
        Some(attrs[choose|i: int| attr_named_at(attrs, name, i)])
    } else {
        None
    }
}

/// The attribute types that `oids` name, in order; `None` where one is not defined.
pub open spec fn attrs_by_oids(attrs: Seq<AttributeView>, oids: Seq<Seq<char>>) -> Option<
    Seq<AttributeView>,
> {
    if forall|i: int| 0 <= i < oids.len() ==> attr_by_oid(attrs, #[trigger] oids[i]) is Some {
        Some(oids.map_values(|o: Seq<char>| attr_by_oid(attrs, o).unwrap()))
    } else {
        None
    }
}

/// The attribute types that `names` name, in order; `None` where a name is unknown.
pub open spec fn attrs_by_names(attrs: Seq<AttributeView>, names: Seq<Seq<char>>) -> Option<
    Seq<AttributeView>,
> {
    if forall|i: int| 0 <= i < names.len() ==> attr_by_name(attrs, #[trigger] names[i]) is Some {
        Some(names.map_values(|n: Seq<char>| attr_by_name(attrs, n).unwrap()))
    } else {
        None
    }
}

/// The object classes that `oids` name, in order; `None` where one is not defined.
pub open spec fn classes_by_oids(classes: Seq<ObjectClassView>, oids: Seq<Seq<char>>) -> Option<
    Seq<ObjectClassView>,
> {
    if forall|i: int| 0 <= i < oids.len() ==> class_by_oid(classes, #[trigger] oids[i]) is Some {
        Some(oids.map_values(|o: Seq<char>| class_by_oid(classes, o).unwrap()))
    } else {
        None
    }
}

/// `classes` with `c` in place of the class of the same identifier, or at its end.
pub open spec fn put_class(classes: Seq<ObjectClassView>, c: ObjectClassView) -> Seq<ObjectClassView> {
    if class_by_oid(classes, c.numericoid) is Some {
        classes.update(class_index(classes, c.numericoid), c)
    } else {
        classes.push(c)
    }
}

/// `attrs` with `a` in place of the attribute type of the same identifier, or at its end.
pub open spec fn put_attr(attrs: Seq<AttributeView>, a: AttributeView) -> Seq<AttributeView> {
    if attr_by_oid(attrs, a.numericoid) is Some {
        attrs.update(attr_index(attrs, a.numericoid), a)
    } else {
        attrs.push(a)
    }
}

/// `classes` after putting each class of `more` in turn.
pub open spec fn put_classes(classes: Seq<ObjectClassView>, more: Seq<ObjectClassView>) -> Seq<
    ObjectClassView,
>
    decreases more.len(),
{
    if more.len() == 0 {
        classes
    } else {
        put_classes(put_class(classes, more[0]), more.drop_first())
    }
}

/// `attrs` after putting each attribute type of `more` in turn.
pub open spec fn put_attrs(attrs: Seq<AttributeView>, more: Seq<AttributeView>) -> Seq<AttributeView>
    decreases more.len(),
{
    if more.len() == 0 {
        attrs
    } else {
        put_attrs(put_attr(attrs, more[0]), more.drop_first())
    }
}

/// The definitions of a schema, as plain values.
pub struct SchemaView {
    pub object_classes: Seq<ObjectClassView>,
    pub attributes: Seq<AttributeView>,
}

/// Every definition is well formed, and no two of a kind share an identifier.
pub open spec fn schema_wf(s: SchemaView) -> bool {
    &&& forall|i: int|
        0 <= i < s.object_classes.len() ==> ObjectClass::wf_view(#[trigger] s.object_classes[i])
    &&& forall|i: int| 0 <= i < s.attributes.len() ==> Attribute::wf_view(#[trigger] s.attributes[i])
    &&& forall|i: int, j: int|
        0 <= i < s.object_classes.len() && 0 <= j < s.object_classes.len() && i != j ==> (
        #[trigger] s.object_classes[i]).numericoid != (#[trigger] s.object_classes[j]).numericoid
    &&& forall|i: int, j: int|
        0 <= i < s.attributes.len() && 0 <= j < s.attributes.len() && i != j ==> (
        #[trigger] s.attributes[i]).numericoid != (#[trigger] s.attributes[j]).numericoid
}

/// The views of a list of object classes.
pub open spec fn class_views(cs: Seq<ObjectClass>) -> Seq<ObjectClassView> {
    cs.map_values(|c: ObjectClass| c@)
}

/// The views of a list of attribute types.
pub open spec fn attr_views(xs: Seq<Attribute>) -> Seq<AttributeView> {
    xs.map_values(|a: Attribute| a@)
}

/// The views of a list of borrowed object classes.
pub open spec fn class_ref_views(cs: Seq<&ObjectClass>) -> Seq<ObjectClassView> {
    cs.map_values(|c: &ObjectClass| c@)
}

/// The views of a list of borrowed attribute types.
pub open spec fn attr_ref_views(xs: Seq<&Attribute>) -> Seq<AttributeView> {
    xs.map_values(|a: &Attribute| a@)
}

/// A repository of schema definitions: lookups by identifier and by name.
pub trait SchemaRepo {
    /// The definitions that the repository holds.
    spec fn definitions(&self) -> SchemaView;

    /// The object class with the identifier `oid`.
    fn get_object_class(&self, oid: &Oid) -> (r: Option<&ObjectClass>)
        requires
            schema_wf(self.definitions()),
        ensures
            match r {
                Some(c) => class_by_oid(self.definitions().object_classes, oid@) == Some(c@) && c.wf(),
                None => class_by_oid(self.definitions().object_classes, oid@) is None,
            },
    ;

    /// The object classes of `entry`, in order; `None` where one is not defined.
    fn get_entry_object_classes<ID: EntryId>(&self, entry: &Entry<ID>) -> (r: Option<
        Vec<&ObjectClass>,
    >)
        requires
            schema_wf(self.definitions()),
        ensures
            match r {
                Some(found) => classes_by_oids(self.definitions().object_classes, entry@.object_classes)
                    == Some(class_ref_views(found@)) && forall|k: int|
                    0 <= k < found@.len() ==> (#[trigger] found@[k]).wf(),
                None => classes_by_oids(self.definitions().object_classes, entry@.object_classes)
                    is None,
            },
    ;

    /// The attribute type with the identifier `oid`.
    fn get_attribute(&self, oid: &Oid) -> (r: Option<&Attribute>)
        requires
            schema_wf(self.definitions()),
        ensures
            match r {
                Some(a) => attr_by_oid(self.definitions().attributes, oid@) == Some(a@) && a.wf(),
                None => attr_by_oid(self.definitions().attributes, oid@) is None,
            },
    ;

    /// The attribute types that `oids` name, in order; `None` where one is not defined.
    fn get_attributes(&self, oids: &crate::sets::StringSet) -> (r: Option<Vec<&Attribute>>)
        requires
            schema_wf(self.definitions()),
        ensures
            match r {
                Some(found) => attrs_by_oids(self.definitions().attributes, oids@) == Some(
                    attr_ref_views(found@),
                ),
                None => attrs_by_oids(self.definitions().attributes, oids@) is None,
            },
    ;

    /// The first object class that has the name `name`.
    fn find_object_class_by_name(&self, name: &str) -> (r: Option<&ObjectClass>)
        ensures
            match r {
                Some(c) => class_by_name(self.definitions().object_classes, name@) == Some(c@),
                None => class_by_name(self.definitions().object_classes, name@) is None,
            },
    ;

    /// The first attribute type that has the name `name`.
    fn find_attribute_by_name(&self, name: &str) -> (r: Option<&Attribute>)
        ensures
            match r {
                Some(a) => attr_by_name(self.definitions().attributes, name@) == Some(a@),
                None => attr_by_name(self.definitions().attributes, name@) is None,
            },
    ;

    /// The attribute types that an entry of `obj_class` must have and may
    /// have; `None` where one of them is not defined.
    fn find_object_class_attrs(&self, obj_class: &ObjectClass) -> (r: Option<
        (Vec<&Attribute>, Vec<&Attribute>),
    >)
        requires
            schema_wf(self.definitions()),
        ensures
            match r {
                Some((must, may)) => attrs_by_oids(self.definitions().attributes, obj_class@.must_attrs)
                    == Some(attr_ref_views(must@)) && attrs_by_oids(
                    self.definitions().attributes,
                    obj_class@.may_attrs,
                ) == Some(attr_ref_views(may@)),
                None => attrs_by_oids(self.definitions().attributes, obj_class@.must_attrs) is None
                    || attrs_by_oids(self.definitions().attributes, obj_class@.may_attrs) is None,
            },
    ;

    /// The attribute types that `names` name, in order; `None` where a name is unknown.
    fn find_all_attributes_by_name(&self, names: &Vec<String>) -> (r: Option<Vec<&Attribute>>)
        ensures
            match r {
                Some(found) => attrs_by_names(
                    self.definitions().attributes,
                    crate::text::string_views(names@),
                ) == Some(attr_ref_views(found@)),
                None => attrs_by_names(self.definitions().attributes, crate::text::string_views(names@))
                    is None,
            },
    ;
}

/// The schema: object classes and attribute types, each under its identifier.
#[derive(Debug)]
pub struct InMemSchemaDb {
    object_classes: Vec<ObjectClass>,
    attributes: Vec<Attribute>,
}

impl View for InMemSchemaDb {
    type V = SchemaView;

    /// The definitions, in the order in which their identifiers were first added.
    closed spec fn view(&self) -> SchemaView {
        SchemaView {
            object_classes: class_views(self.object_classes@),
            attributes: attr_views(self.attributes@),
        }
    }
}

impl Default for InMemSchemaDb {
    fn default() -> (r: Self)
        ensures
            r.wf(),
            r@.object_classes == Seq::<ObjectClassView>::empty(),
            r@.attributes == Seq::<AttributeView>::empty(),
    {
        let r = InMemSchemaDb { object_classes: Vec::new(), attributes: Vec::new() };
        assert(r@.object_classes =~= Seq::<ObjectClassView>::empty());
        assert(r@.attributes =~= Seq::<AttributeView>::empty());
        r
    }
}

impl InMemSchemaDb {
    /// Every definition is well formed, and no two of a kind share an identifier.
    pub open spec fn wf(&self) -> bool {
        schema_wf(self@)
    }

    /// A schema of the given definitions, each put in turn: a later
    /// definition replaces an earlier one of the same identifier.
    pub fn new(object_classes: Vec<ObjectClass>, attributes: Vec<Attribute>) -> (r: InMemSchemaDb)
        requires
            forall|i: int| 0 <= i < object_classes@.len() ==> (#[trigger] object_classes@[i]).wf(),
            forall|i: int| 0 <= i < attributes@.len() ==> (#[trigger] attributes@[i]).wf(),
        ensures
            r.wf(),
            r@.object_classes == put_classes(Seq::empty(), class_views(object_classes@)),
            r@.attributes == put_attrs(Seq::empty(), attr_views(attributes@)),
    {
        let mut db = InMemSchemaDb::default();
        let ghost cs = class_views(object_classes@);
        let ghost xs = attr_views(attributes@);
        let mut i: usize = 0;
        proof {
            assert(cs.skip(0) =~= cs);
            assert(xs.skip(0) =~= xs);
        }
        while i < object_classes.len()
            invariant
                i <= object_classes.len(),
                db.wf(),
                cs == class_views(object_classes@),
                db@.attributes == Seq::<AttributeView>::empty(),
                forall|k: int| 0 <= k < object_classes@.len() ==> (#[trigger] object_classes@[k]).wf(),
                put_classes(db@.object_classes, cs.skip(i as int)) == put_classes(Seq::empty(), cs),
            decreases object_classes.len() - i,
        {
            proof {
                assert(cs.skip(i as int).drop_first() =~= cs.skip(i as int + 1));
                assert(cs.skip(i as int)[0] == object_classes@[i as int]@);
            }
            db.add_object_class(object_classes[i].clone());
            i += 1;
        }
        proof {
            assert(cs.skip(i as int) =~= Seq::<ObjectClassView>::empty());
        }
        let mut j: usize = 0;
        while j < attributes.len()
            invariant
                j <= attributes.len(),
                db.wf(),
                xs == attr_views(attributes@),
                db@.object_classes == put_classes(Seq::empty(), cs),
                forall|k: int| 0 <= k < attributes@.len() ==> (#[trigger] attributes@[k]).wf(),
                put_attrs(db@.attributes, xs.skip(j as int)) == put_attrs(Seq::empty(), xs),
            decreases attributes.len() - j,
        {
            proof {
                assert(xs.skip(j as int).drop_first() =~= xs.skip(j as int + 1));
                assert(xs.skip(j as int)[0] == attributes@[j as int]@);
            }
            db.add_attribute(attributes[j].clone());
            j += 1;
        }
        proof {
            assert(xs.skip(j as int) =~= Seq::<AttributeView>::empty());
        }
        db
    }

    fn class_position(&self, oid: &str) -> (r: Option<usize>)
        ensures
            match r {
                Some(i) => i < self@.object_classes.len() && self@.object_classes[i as int].numericoid
                    == oid@ && class_by_oid(self@.object_classes, oid@) is Some,
                None => class_by_oid(self@.object_classes, oid@) is None,
            },
            self.wf() ==> (r matches Some(i) ==> i == class_index(self@.object_classes, oid@)),
    {
        let mut i: usize = 0;
        while i < self.object_classes.len()
            invariant
                i <= self.object_classes.len(),
                forall|k: int| 0 <= k < i ==> (#[trigger] self@.object_classes[k]).numericoid != oid@,
            decreases self.object_classes.len() - i,
        {
            if str_eq(self.object_classes[i].get_numericoid().as_str(), oid) {
                assert(self@.object_classes[i as int].numericoid == oid@);
                return Some(i);
            }
            i += 1;
        }
        None
    }

    fn attr_position(&self, oid: &str) -> (r: Option<usize>)
        ensures
            match r {
                Some(i) => i < self@.attributes.len() && self@.attributes[i as int].numericoid == oid@
                    && attr_by_oid(self@.attributes, oid@) is Some,
                None => attr_by_oid(self@.attributes, oid@) is None,
            },
            self.wf() ==> (r matches Some(i) ==> i == attr_index(self@.attributes, oid@)),
    {
        let mut i: usize = 0;
        while i < self.attributes.len()
            invariant
                i <= self.attributes.len(),
                forall|k: int| 0 <= k < i ==> (#[trigger] self@.attributes[k]).numericoid != oid@,
            decreases self.attributes.len() - i,
        {
            if str_eq(self.attributes[i].get_numericoid().as_str(), oid) {
                assert(self@.attributes[i as int].numericoid == oid@);
                return Some(i);
            }
            i += 1;
        }
        None
    }

    /// Puts `class` under its identifier, in place of what was defined there.
    pub fn add_object_class(&mut self, class: ObjectClass)
        requires
            old(self).wf(),
            class.wf(),
        ensures
            final(self).wf(),
            final(self)@ == (SchemaView {
                object_classes: put_class(old(self)@.object_classes, class@),
                ..old(self)@
            }),
    {
        match self.class_position(class.get_numericoid().as_str()) {
            Some(i) => {
                self.object_classes.set(i, class);
            },
            None => {
                self.object_classes.push(class);
            },
        }
        assert(self@.object_classes =~= put_class(old(self)@.object_classes, class@));
    }

    /// Puts `attribute` under its identifier, in place of what was defined there.
    pub fn add_attribute(&mut self, attribute: Attribute)
        requires
            old(self).wf(),
            attribute.wf(),
        ensures
            final(self).wf(),
            final(self)@ == (SchemaView {
                attributes: put_attr(old(self)@.attributes, attribute@),
                ..old(self)@
            }),
    {
        match self.attr_position(attribute.get_numericoid().as_str()) {
            Some(i) => {
                self.attributes.set(i, attribute);
            },
            None => {
                self.attributes.push(attribute);
            },
        }
        assert(self@.attributes =~= put_attr(old(self)@.attributes, attribute@));
    }

    /// The object class whose identifier has the text `oid`.
    pub fn class_of(&self, oid: &str) -> (r: Option<&ObjectClass>)
        requires
            self.wf(),
        ensures
            match r {
                Some(c) => class_by_oid(self@.object_classes, oid@) == Some(c@) && c.wf(),
                None => class_by_oid(self@.object_classes, oid@) is None,
            },
    {
        match self.class_position(oid) {
            Some(i) => {
                assert(self@.object_classes[i as int] == self.object_classes@[i as int]@);
                Some(&self.object_classes[i])
            },
            None => None,
        }
    }

    /// The attribute type whose identifier has the text `oid`.
    pub fn attribute_of(&self, oid: &str) -> (r: Option<&Attribute>)
        requires
            self.wf(),
        ensures
            match r {
                Some(a) => attr_by_oid(self@.attributes, oid@) == Some(a@) && a.wf(),
                None => attr_by_oid(self@.attributes, oid@) is None,
            },
    {
        match self.attr_position(oid) {
            Some(i) => {
                assert(self@.attributes[i as int] == self.attributes@[i as int]@);
                Some(&self.attributes[i])
            },
            None => None,
        }
    }
}

impl SchemaRepo for InMemSchemaDb {
    open spec fn definitions(&self) -> SchemaView {
        self@
    }

    /// The object class with the identifier `oid`.
    fn get_object_class(&self, oid: &Oid) -> (r: Option<&ObjectClass>) {
        self.class_of(oid.as_str())
    }

    /// The attribute type with the identifier `oid`.
    fn get_attribute(&self, oid: &Oid) -> (r: Option<&Attribute>) {
        self.attribute_of(oid.as_str())
    }

    /// The first object class that has the name `name`.
    fn find_object_class_by_name(&self, name: &str) -> (r: Option<&ObjectClass>) {
        let mut i: usize = 0;
        while i < self.object_classes.len()
            invariant
                i <= self.object_classes.len(),
                forall|k: int| 0 <= k < i ==> !(#[trigger] self@.object_classes[k]).names.contains(name@),
            decreases self.object_classes.len() - i,
        {
            if self.object_classes[i].has_name(name) {
                assert(self@.object_classes[i as int] == self.object_classes@[i as int]@);
                assert(class_named_at(self@.object_classes, name@, i as int));
                return Some(&self.object_classes[i]);
            }
            i += 1;
        }
        None
    }

    /// The first attribute type that has the name `name`.
    fn find_attribute_by_name(&self, name: &str) -> (r: Option<&Attribute>) {
        let mut i: usize = 0;
        while i < self.attributes.len()
            invariant
                i <= self.attributes.len(),
                forall|k: int| 0 <= k < i ==> !(#[trigger] self@.attributes[k]).names.contains(name@),
            decreases self.attributes.len() - i,
        {
            if self.attributes[i].has_name(name) {
                assert(self@.attributes[i as int] == self.attributes@[i as int]@);
                assert(attr_named_at(self@.attributes, name@, i as int));
                return Some(&self.attributes[i]);
            }
            i += 1;
        }
        None
    }

    /// The attribute types that `oids` name, in order; `None` where one is not defined.
    fn get_attributes(&self, oids: &crate::sets::StringSet) -> (r: Option<Vec<&Attribute>>) {
        let mut found: Vec<&Attribute> = Vec::new();
        let mut i: usize = 0;
        while i < oids.len()
            invariant
                i <= oids@.len(),
                self.wf(),
                found@.len() == i,
                forall|k: int|
                    0 <= k < i ==> attr_by_oid(self@.attributes, #[trigger] oids@[k]) == Some(found@[k]@),
            decreases oids@.len() - i,
        {
            match self.attribute_of(oids.get(i).as_str()) {
                Some(a) => {
                    found.push(a);
                },
                None => {
                    return None;
                },
            }
            i += 1;
        }
        assert(attr_ref_views(found@) =~= oids@.map_values(
            |o: Seq<char>| attr_by_oid(self@.attributes, o).unwrap(),
        ));
        Some(found)
    }

    /// The attribute types that an entry of `obj_class` must have and may
    /// have; `None` where one of them is not defined.
    fn find_object_class_attrs(&self, obj_class: &ObjectClass) -> (r: Option<
        (Vec<&Attribute>, Vec<&Attribute>),
    >) {
        match self.get_attributes(obj_class.get_must_attrs()) {
            Some(must) => match self.get_attributes(obj_class.get_may_attrs()) {
                Some(may) => Some((must, may)),
                None => None,
            },
            None => None,
        }
    }

    /// The attribute types that `names` name, in order; `None` where a name is unknown.
    fn find_all_attributes_by_name(&self, names: &Vec<String>) -> (r: Option<Vec<&Attribute>>) {
        let mut found: Vec<&Attribute> = Vec::new();
        let mut i: usize = 0;
        let ghost ns = crate::text::string_views(names@);
        while i < names.len()
            invariant
                i <= names.len(),
                ns == crate::text::string_views(names@),
                found@.len() == i,
                forall|k: int|
                    0 <= k < i ==> attr_by_name(self@.attributes, #[trigger] ns[k]) == Some(found@[k]@),
            decreases names.len() - i,
        {
            match self.find_attribute_by_name(names[i].as_str()) {
                Some(a) => {
                    found.push(a);
                },
                None => {
                    assert(attr_by_name(self@.attributes, ns[i as int]) is None);
                    return None;
                },
            }
            i += 1;
        }
        assert(attr_ref_views(found@) =~= ns.map_values(
            |n: Seq<char>| attr_by_name(self@.attributes, n).unwrap(),
        ));
        Some(found)
    }

    /// The object classes of `entry`, in order; `None` where one is not defined.
    fn get_entry_object_classes<ID: EntryId>(&self, entry: &Entry<ID>) -> (r: Option<
        Vec<&ObjectClass>,
    >) {
        let oids = entry.get_object_classes();
        let mut found: Vec<&ObjectClass> = Vec::new();
        let mut i: usize = 0;
        while i < oids.len()
            invariant
                i <= oids@.len(),
                self.wf(),
                oids@ == entry@.object_classes,
                found@.len() == i,
                forall|k: int| 0 <= k < i ==> (#[trigger] found@[k]).wf(),
                forall|k: int|
                    0 <= k < i ==> class_by_oid(self@.object_classes, #[trigger] oids@[k]) == Some(
                        found@[k]@,
                    ),
            decreases oids@.len() - i,
        {
            match self.class_of(oids.get(i).as_str()) {
                Some(c) => {
                    found.push(c);
                },
                None => {
                    return None;
                },
            }
            i += 1;
        }
        assert(class_ref_views(found@) =~= oids@.map_values(
            |o: Seq<char>| class_by_oid(self@.object_classes, o).unwrap(),
        ));
        Some(found)
    }
}

} // verus!
