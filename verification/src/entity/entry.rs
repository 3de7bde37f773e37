//! Directory entries and the identifiers that name them.

use crate::entity::dn::Rdn;
use crate::entity::schema::Oid;
use crate::sets::{add_values_spec, attrs_wf, insert_spec, value_of, AttributeMap, StringSet};
use vstd::prelude::*;
use vstd::string::*;

verus! {

/// What an identifier of entries can do. Contracts speak of an identifier by its view.
pub trait EntryId: View + Sized {
    /// The view of the identifier of the root entry.
    spec fn root_view() -> Self::V;

    /// The view of the identifier that a new entry holds as its parent.
    spec fn default_view() -> Self::V;

    /// The text of an identifier.
    spec fn text_of(v: Self::V) -> Seq<char>;

    /// A new identifier, chosen at random.
    fn new_random_id() -> Self;

    /// The identifier of the root entry.
    fn root_identifier() -> (r: Self)
        ensures
            r@ == Self::root_view(),
    ;

    /// The identifier that a new entry holds as its parent.
    fn default_id() -> (r: Self)
        ensures
            r@ == Self::default_view(),
    ;

    /// A copy of the identifier.
    fn clone_id(&self) -> (r: Self)
        ensures
            r@ == self@,
    ;

    /// Whether two identifiers are equal.
    fn same_id(&self, other: &Self) -> (r: bool)
        ensures
            r == (self@ == other@),
    ;

    /// The identifier as text.
    fn id_text(&self) -> (r: String)
        ensures
            r@ == Self::text_of(self@),
    ;
}

/// A directory entry: a node of the tree with its object classes and attributes.
#[derive(Debug)]
pub struct Entry<ID: EntryId> {
    _id: Option<ID>,
    parent: ID,
    children: Vec<ID>,
    object_classes: StringSet,
    attributes: AttributeMap,
}

/// What an [`Entry`] holds, as plain values; sets and maps in insertion order.
pub struct EntryView<V> {
    pub id: Option<V>,
    pub parent: V,
    pub children: Seq<V>,
    pub object_classes: Seq<Seq<char>>,
    pub attributes: Seq<(Seq<char>, Seq<Seq<char>>)>,
}

/// The views of a list of identifiers.
pub open spec fn id_views<ID: EntryId>(ids: Seq<ID>) -> Seq<ID::V> {
    ids.map_values(|c: ID| c@)
}

/// The view of an entry without identifier, children, object classes or attributes.
pub open spec fn empty_entry<ID: EntryId>() -> EntryView<ID::V> {
    EntryView {
        id: None,
        parent: ID::default_view(),
        children: Seq::empty(),
        object_classes: Seq::empty(),
        attributes: Seq::empty(),
    }
}

/// No child, object class or attribute occurs twice, and no value twice under an attribute.
pub open spec fn entry_wf<V>(e: EntryView<V>) -> bool {
    &&& e.children.no_duplicates()
    &&& e.object_classes.no_duplicates()
    &&& attrs_wf(e.attributes)
}

/// Some pair of `rdn` names an attribute of `attrs` under which its value stands.
pub open spec fn matches_spec(
    attrs: Seq<(Seq<char>, Seq<Seq<char>>)>,
    rdn: Seq<(Seq<char>, Seq<char>)>,
) -> bool {
    exists|i: int| 0 <= i < rdn.len() && value_of(attrs, (#[trigger] rdn[i]).0).contains(rdn[i].1)
}

/// The text of an optional identifier: its own text, or `No ID`.
pub open spec fn id_str_spec<ID: EntryId>(id: Option<ID::V>) -> Seq<char> {
    match id {
        Some(v) => ID::text_of(v),
        None => "No ID"@,
    }
}

impl<ID: EntryId> View for Entry<ID> {
    type V = EntryView<ID::V>;

    closed spec fn view(&self) -> EntryView<ID::V> {
        EntryView {
            id: match self._id {
                Some(id) => Some(id@),
                None => None,
            },
            parent: self.parent@,
            children: id_views(self.children@),
            object_classes: self.object_classes@,
            attributes: self.attributes@,
        }
    }
}

/// A copy of a list of identifiers.
pub fn clone_ids<ID: EntryId>(ids: &Vec<ID>) -> (r: Vec<ID>)
    ensures
        id_views(r@) == id_views(ids@),
{
    let mut out: Vec<ID> = Vec::new();
    let mut i: usize = 0;
    while i < ids.len()
        invariant
            i <= ids.len(),
            out@.len() == i,
            forall|k: int| 0 <= k < i ==> out@[k]@ == ids@[k]@,
        decreases ids.len() - i,
    {
        out.push(ids[i].clone_id());
        i += 1;
    }
    assert(id_views(out@) =~= id_views(ids@));
    out
}

impl<ID: EntryId> Clone for Entry<ID> {
    fn clone(&self) -> (r: Self)
        ensures
            r@ == self@,
    {
        Entry {
            _id: match &self._id {
                Some(id) => Some(id.clone_id()),
                None => None,
            },
            parent: self.parent.clone_id(),
            children: clone_ids(&self.children),
            object_classes: self.object_classes.clone(),
            attributes: self.attributes.clone(),
        }
    }
}

impl<ID: EntryId> Default for Entry<ID> {
    fn default() -> (r: Self)
        ensures
            r@ == empty_entry::<ID>(),
            r.wf(),
    {
        let r = Entry {
            _id: None,
            parent: ID::default_id(),
            children: Vec::new(),
            object_classes: StringSet::new(),
            attributes: AttributeMap::new(),
        };
        assert(id_views(r.children@) =~= Seq::<ID::V>::empty());
        r
    }
}

impl<ID: EntryId> Entry<ID> {
    /// No child, object class or attribute occurs twice, and no value twice under an attribute.
    pub open spec fn wf(&self) -> bool {
        entry_wf(self@)
    }

    /// An entry of the given object classes and attributes, without identifier or children.
    pub fn new(object_classes: StringSet, attributes: AttributeMap) -> (r: Entry<ID>)
        ensures
            r@ == (EntryView {
                object_classes: object_classes@,
                attributes: attributes@,
                ..empty_entry::<ID>()
            }),
    {
        let r = Entry {
            _id: None,
            parent: ID::default_id(),
            children: Vec::new(),
            object_classes,
            attributes,
        };
        assert(id_views(r.children@) =~= Seq::<ID::V>::empty());
        r
    }

    pub fn get_id(&self) -> (r: Option<ID>)
        ensures
            r is Some == self@.id is Some,
            r matches Some(id) ==> self@.id == Some(id@),
    {
        match &self._id {
            Some(id) => Some(id.clone_id()),
            None => None,
        }
    }

    /// The identifier as text, or `No ID` where the entry has none.
    pub fn get_id_str(&self) -> (r: String)
        ensures
            r@ == id_str_spec::<ID>(self@.id),
    {
        match &self._id {
            Some(id) => id.id_text(),
            None => String::from_str("No ID"),
        }
    }

    pub fn set_id(&mut self, id: &ID)
        ensures
            final(self)@ == (EntryView { id: Some(id@), ..old(self)@ }),
    {
        self._id = Some(id.clone_id());
    }

    pub fn set_parent(&mut self, parent: ID)
        ensures
            final(self)@ == (EntryView { parent: parent@, ..old(self)@ }),
    {
        self.parent = parent;
    }

    pub fn get_parent(&self) -> (r: &ID)
        ensures
            r@ == self@.parent,
    {
        &self.parent
    }

    pub fn get_object_classes(&self) -> (r: &StringSet)
        ensures
            r@ == self@.object_classes,
    {
        &self.object_classes
    }

    pub fn get_attributes(&self) -> (r: &AttributeMap)
        ensures
            r@ == self@.attributes,
    {
        &self.attributes
    }

    /// The values of the attribute `oid`.
    pub fn get_attribute(&self, oid: &Oid) -> (r: Option<&StringSet>)
        requires
            self.wf(),
        ensures
            r is Some == crate::sets::has_key(self@.attributes, oid@),
            r matches Some(v) ==> v@ == value_of(self@.attributes, oid@) && v.wf(),
    {
        self.attributes.get(oid.as_str())
    }

    pub fn get_children(&self) -> (r: &Vec<ID>)
        ensures
            id_views(r@) == self@.children,
    {
        &self.children
    }

    /// Whether `id` is a child of the entry.
    pub fn has_child(&self, id: &ID) -> (r: bool)
        ensures
            r == self@.children.contains(id@),
    {
        let mut i: usize = 0;
        while i < self.children.len()
            invariant
                i <= self.children.len(),
                forall|k: int| 0 <= k < i ==> self@.children[k] != id@,
            decreases self.children.len() - i,
        {
            if self.children[i].same_id(id) {
                assert(self@.children[i as int] == id@);
                return true;
            }
            i += 1;
        }
        false
    }

    /// Adds `child` to the children, unless it is one already.
    pub fn add_child(&mut self, child: ID)
        requires
            old(self).wf(),
        ensures
            final(self).wf(),
            final(self)@ == (EntryView {
                children: if old(self)@.children.contains(child@) {
                    old(self)@.children
                } else {
                    old(self)@.children.push(child@)
                },
                ..old(self)@
            }),
    {
        if !self.has_child(&child) {
            self.children.push(child);
            assert(id_views(self.children@) =~= old(self)@.children.push(child@));
        }
    }

    /// Whether the entry answers to `rdn`: some pair of `rdn` names an
    /// attribute of the entry that holds the pair's value.
    pub fn matches_rdn(&self, rdn: &Rdn) -> (r: bool)
        requires
            self.wf(),
        ensures
            r == matches_spec(self@.attributes, rdn@),
    {
        let mut i: usize = 0;
        while i < rdn.len()
            invariant
                i <= rdn@.len(),
                self.wf(),
                forall|k: int|
                    0 <= k < i ==> !value_of(self@.attributes, (#[trigger] rdn@[k]).0).contains(
                        rdn@[k].1,
                    ),
            decreases rdn@.len() - i,
        {
            match self.get_attribute(rdn.oid_at(i)) {
                Some(values) => {
                    if values.contains(rdn.value_at(i).as_str()) {
                        assert(value_of(self@.attributes, rdn@[i as int].0).contains(rdn@[i as int].1));
                        return true;
                    }
                },
                None => {
                    assert(value_of(self@.attributes, rdn@[i as int].0) =~= Seq::<Seq<char>>::empty());
                },
            }
            i += 1;
        }
        false
    }
}

/// Builds an [`Entry`] step by step.
pub struct EntryBuilder<ID: EntryId> {
    entry: Entry<ID>,
}

impl<ID: EntryId> View for EntryBuilder<ID> {
    type V = EntryView<ID::V>;

    /// The view of the entry built so far.
    closed spec fn view(&self) -> EntryView<ID::V> {
        self.entry@
    }
}

impl<ID: EntryId> EntryBuilder<ID> {
    /// The entry built so far is well formed.
    pub open spec fn wf(&self) -> bool {
        entry_wf(self@)
    }

    pub fn new() -> (r: Self)
        ensures
            r.wf(),
            r@ == empty_entry::<ID>(),
    {
        EntryBuilder { entry: Entry::default() }
    }

    pub fn set_id(self, id: ID) -> (r: Self)
        ensures
            r@ == (EntryView { id: Some(id@), ..self@ }),
    {
        let mut b = self;
        b.entry._id = Some(id);
        b
    }

    pub fn set_parent(self, parent: ID) -> (r: Self)
        ensures
            r@ == (EntryView { parent: parent@, ..self@ }),
    {
        let mut b = self;
        b.entry.parent = parent;
        b
    }

    pub fn add_child(self, child: ID) -> (r: Self)
        requires
            self.wf(),
        ensures
            r.wf(),
            r@ == (EntryView {
                children: if self@.children.contains(child@) {
                    self@.children
                } else {
                    self@.children.push(child@)
                },
                ..self@
            }),
    {
        let mut b = self;
        b.entry.add_child(child);
        b
    }

    pub fn add_object_class(self, obj_class_oid: Oid) -> (r: Self)
        requires
            self.wf(),
        ensures
            r.wf(),
            r@ == (EntryView {
                object_classes: insert_spec(self@.object_classes, obj_class_oid@),
                ..self@
            }),
    {
        let mut b = self;
        b.entry.object_classes.insert(obj_class_oid.to_string());
        b
    }

    /// Adds `value` to the values of the attribute `attr_oid`.
    pub fn add_attr_val(self, attr_oid: Oid, value: &str) -> (r: Self)
        requires
            self.wf(),
        ensures
            r.wf(),
            r@ == (EntryView {
                attributes: add_values_spec(self@.attributes, attr_oid@, seq![value@]),
                ..self@
            }),
    {
        let mut b = self;
        b.entry.attributes.add_value(attr_oid.to_string(), String::from_str(value));
        b
    }

    /// Adds `values` to the values of the attribute `attr_oid`.
    pub fn add_attr_vals(self, attr_oid: Oid, values: &StringSet) -> (r: Self)
        requires
            self.wf(),
        ensures
            r.wf(),
            r@ == (EntryView {
                attributes: add_values_spec(self@.attributes, attr_oid@, values@),
                ..self@
            }),
    {
        let mut b = self;
        b.entry.attributes.add_values(attr_oid.to_string(), values);
        b
    }

    pub fn build(self) -> (r: Entry<ID>)
        ensures
            r@ == self@,
    {
        self.entry
    }
}

} // verus!
