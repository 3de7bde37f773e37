//! The schema and the entries that a directory starts with.

use crate::db::{
    attr_views, class_views, entry_views, put_attrs, put_classes, store_all_spec, InMemLdapDb,
    InMemSchemaDb,
};
use crate::entity::entry::{empty_entry, Entry, EntryBuilder, EntryId, EntryView};
use crate::entity::schema::{
    Attribute, AttributeBuilder, AttributeView, Kind, ObjectClass, ObjectClassBuilder,
    ObjectClassView, Oid,
};
use crate::sets::{add_values_spec, insert_spec};
use vstd::prelude::*;

verus! {

/// The entry `dc-oid=georgiboy`, under the identifier `id`.
pub open spec fn georgiboy_entry(id: u64) -> EntryView<u64> {
    EntryView {
        id: Some(id),
        attributes: add_values_spec(Seq::empty(), "dc-oid"@, seq!["georgiboy"@]),
        ..empty_entry::<u64>()
    }
}

/// The root entry `dc-oid=dev`, with the one child `child`.
pub open spec fn dev_entry(child: u64) -> EntryView<u64> {
    EntryView {
        id: Some(0u64),
        attributes: add_values_spec(Seq::empty(), "dc-oid"@, seq!["dev"@]),
        children: seq![child],
        ..empty_entry::<u64>()
    }
}

/// The entries that a directory starts with, where the child has the
/// identifier `child`: the child stored first, then the root.
pub open spec fn starting_entries(child: u64) -> Seq<EntryView<u64>> {
    store_all_spec(Seq::empty(), seq![georgiboy_entry(child), dev_entry(child)])
}

/// The object class `person`: structural, with `cn` required and `sn` allowed.
pub open spec fn person_class() -> ObjectClassView {
    ObjectClassView {
        numericoid: "person-oid"@,
        names: insert_spec(Seq::empty(), "person"@),
        sup_oids: insert_spec(Seq::empty(), "top"@),
        kind: Kind::StructuralClass,
        must_attrs: insert_spec(Seq::empty(), "cn-oid"@),
        may_attrs: insert_spec(Seq::empty(), "sn-oid"@),
        ..ObjectClass::empty_view()
    }
}

/// The attribute type `cn`, also named `commonName`.
pub open spec fn cn_attribute() -> AttributeView {
    AttributeView {
        numericoid: "cn-oid"@,
        names: insert_spec(insert_spec(Seq::empty(), "cn"@), "commonName"@),
        ..Attribute::empty_view()
    }
}

/// An attribute type of one name.
pub open spec fn plain_attribute(oid: Seq<char>, name: Seq<char>) -> AttributeView {
    AttributeView { numericoid: oid, names: insert_spec(Seq::empty(), name), ..Attribute::empty_view() }
}

/// The entries that a directory starts with: the root, `dc-oid=dev`, and
/// its one child, `dc-oid=georgiboy`, under a random identifier.
pub fn populated_entry_repo() -> (r: InMemLdapDb<u64>)
    ensures
        r.wf(),
        exists|child: u64| #[trigger] starting_entries(child) == r@,
{
    let child_id = u64::new_random_id();
    let dc_georgiboy: Entry<u64> = EntryBuilder::new().set_id(child_id).add_attr_val(
        Oid::new("dc-oid"),
        "georgiboy",
    ).build();
    let dc_dev: Entry<u64> = EntryBuilder::new().set_id(u64::root_identifier()).add_attr_val(
        Oid::new("dc-oid"),
        "dev",
    ).add_child(child_id).build();
    proof {
        assert(dc_georgiboy@ == georgiboy_entry(child_id));
        assert(dc_dev@.children =~= seq![child_id]);
        assert(dc_dev@ == dev_entry(child_id));
    }
    let mut entries: Vec<Entry<u64>> = Vec::new();
    entries.push(dc_georgiboy);
    entries.push(dc_dev);
    proof {
        assert(entry_views(entries@) =~= seq![georgiboy_entry(child_id), dev_entry(child_id)]);
    }
    let r = InMemLdapDb::with_entries(entries);
    assert(starting_entries(child_id) == r@);
    r
}

/// The schema that a directory starts with: the object class `person` and
/// the attribute types `cn`, `sn` and `dc`.
pub fn populated_schema_repo() -> (r: InMemSchemaDb)
    ensures
        r.wf(),
        r@.object_classes == put_classes(Seq::empty(), seq![person_class()]),
        r@.attributes == put_attrs(
            Seq::empty(),
            seq![
                cn_attribute(),
                plain_attribute("sn-oid"@, "sn"@),
                plain_attribute("dc-oid"@, "dc"@),
            ],
        ),
{
    let person = ObjectClassBuilder::new().set_numericoid(Oid::new("person-oid")).add_name(
        "person",
    ).add_sup_oid(Oid::new("top")).set_kind(Kind::StructuralClass).add_must_attr(
        Oid::new("cn-oid"),
    ).add_may_attr(Oid::new("sn-oid")).build();
    let cn = AttributeBuilder::new().set_numericoid(Oid::new("cn-oid")).add_name("cn").add_name(
        "commonName",
    ).build();
    let sn = AttributeBuilder::new().set_numericoid(Oid::new("sn-oid")).add_name("sn").build();
    let dc = AttributeBuilder::new().set_numericoid(Oid::new("dc-oid")).add_name("dc").build();
    proof {
        assert(person@ == person_class());
        assert(cn@ == cn_attribute());
        assert(sn@ == plain_attribute("sn-oid"@, "sn"@));
        assert(dc@ == plain_attribute("dc-oid"@, "dc"@));
    }
    let mut classes = Vec::new();
    classes.push(person);
    let mut attributes = Vec::new();
    attributes.push(cn);
    attributes.push(sn);
    attributes.push(dc);
    proof {
        assert(class_views(classes@) =~= seq![person_class()]);
        assert(attr_views(attributes@) =~= seq![
            cn_attribute(),
            plain_attribute("sn-oid"@, "sn"@),
            plain_attribute("dc-oid"@, "dc"@),
        ]);
    }
    InMemSchemaDb::new(classes, attributes)
}

} // verus!
