//! What it means for an entry to satisfy the schema, and that validation and
//! the add-entry transaction hold entries to it.

use crate::db::{attr_by_name, attr_by_oid, classes_by_oids, repo_wf, with_root, SchemaView};
use crate::entity::entry::{EntryId, EntryView};
use crate::entity::schema::AttributeView;
use crate::service::entry::{add_checked, add_spec, with_child};
use crate::service::schema::{
    attr_name_fails_at, attributes_fault, attributes_result, may_union, must_fault, must_fault_at,
    must_union, other_fault, other_fault_at, renamed, structural_count, validation_fault,
};
use crate::sets::{attrs_wf, has_key, index_of_key, lemma_put, put_spec, unique_keys, value_of};
use vstd::prelude::*;

verus! {

/// An entry of the object classes `oc` and the attributes `ea` satisfies the
/// schema: its classes are defined and exactly one is structural; every
/// attribute that they require is there with a value; every attribute it
/// has is required or allowed by them; and no single-valued attribute has
/// more than one value.
pub open spec fn entry_conforms(
    s: SchemaView,
    oc: Seq<Seq<char>>,
    ea: Seq<(Seq<char>, Seq<Seq<char>>)>,
) -> bool {
    match classes_by_oids(s.object_classes, oc) {
        None => false,
        Some(classes) => {
            &&& structural_count(classes) == 1
            &&& forall|i: int|
                0 <= i < must_union(classes).len() ==> has_key(ea, #[trigger] must_union(classes)[i])
                    && value_of(ea, must_union(classes)[i]).len() >= 1
            &&& forall|i: int|
                0 <= i < ea.len() ==> must_union(classes).contains((#[trigger] ea[i]).0)
                    || may_union(classes).contains(ea[i].0)
            &&& forall|i: int|
                0 <= i < ea.len() ==> single_value_kept(s.attributes, #[trigger] ea[i])
        },
    }
}

/// The attribute of `pair` is defined, and has at most one value where it is single-valued.
pub open spec fn single_value_kept(sa: Seq<AttributeView>, pair: (Seq<char>, Seq<Seq<char>>)) -> bool {
    match attr_by_oid(sa, pair.0) {
        None => false,
        Some(a) => a.single_value ==> pair.1.len() <= 1,
    }
}

/// Where a required attribute has a fault, one of them is the first.
proof fn lemma_first_must_fault(
    sa: Seq<AttributeView>,
    id: Seq<char>,
    ea: Seq<(Seq<char>, Seq<Seq<char>>)>,
    must: Seq<Seq<char>>,
    i: int,
)
    requires
        0 <= i < must.len(),
        must_fault(sa, id, ea, must[i]) is Some,
    ensures
        exists|j: int| must_fault_at(sa, id, ea, must, j),
    decreases i,
{
    if exists|k: int| 0 <= k < i && must_fault(sa, id, ea, #[trigger] must[k]) is Some {
        let k = choose|k: int| 0 <= k < i && must_fault(sa, id, ea, #[trigger] must[k]) is Some;
        lemma_first_must_fault(sa, id, ea, must, k);
    } else {
        assert(must_fault_at(sa, id, ea, must, i));
    }
}

/// Where an attribute of the entry has a fault of its own, one of them is the first.
proof fn lemma_first_other_fault(
    sa: Seq<AttributeView>,
    id: Seq<char>,
    must: Seq<Seq<char>>,
    may: Seq<Seq<char>>,
    ea: Seq<(Seq<char>, Seq<Seq<char>>)>,
    i: int,
)
    requires
        0 <= i < ea.len(),
        other_fault(sa, id, must, may, ea[i]) is Some,
    ensures
        exists|j: int| other_fault_at(sa, id, must, may, ea, j),
    decreases i,
{
    if exists|k: int| 0 <= k < i && other_fault(sa, id, must, may, #[trigger] ea[k]) is Some {
        let k = choose|k: int| 0 <= k < i && other_fault(sa, id, must, may, #[trigger] ea[k]) is Some;
        lemma_first_other_fault(sa, id, must, may, ea, k);
    } else {
        assert(other_fault_at(sa, id, must, may, ea, i));
    }
}

/// An entry in which validation finds no fault satisfies the schema.
pub proof fn lemma_validated_entry_conforms(
    s: SchemaView,
    id: Seq<char>,
    oc: Seq<Seq<char>>,
    ea: Seq<(Seq<char>, Seq<Seq<char>>)>,
)
    requires
        attrs_wf(ea),
        validation_fault(s, id, oc, ea) is None,
    ensures
        entry_conforms(s, oc, ea),
{
    let classes = classes_by_oids(s.object_classes, oc)->0;
    let must = must_union(classes);
    let may = may_union(classes);
    let sa = s.attributes;
    assert(attributes_fault(sa, id, must, may, ea) is None);
    assert forall|i: int| 0 <= i < must.len() implies must_fault(sa, id, ea, #[trigger] must[i]) is None by {
        if must_fault(sa, id, ea, must[i]) is Some {
            lemma_first_must_fault(sa, id, ea, must, i);
            let j = choose|j: int| must_fault_at(sa, id, ea, must, j);
            assert(must_fault(sa, id, ea, must[j]) is Some);
        }
    }
    assert forall|i: int| 0 <= i < ea.len() implies other_fault(sa, id, must, may, #[trigger] ea[i]) is None by {
        if other_fault(sa, id, must, may, ea[i]) is Some {
            lemma_first_other_fault(sa, id, must, may, ea, i);
            if exists|j: int| must_fault_at(sa, id, ea, must, j) {
                let j = choose|j: int| must_fault_at(sa, id, ea, must, j);
                assert(must_fault(sa, id, ea, must[j]) is Some);
            } else {
                let j = choose|j: int| other_fault_at(sa, id, must, may, ea, j);
                assert(other_fault(sa, id, must, may, ea[j]) is Some);
            }
        }
    }
    assert forall|i: int| 0 <= i < ea.len() implies single_value_kept(sa, #[trigger] ea[i]) by {
        assert(other_fault(sa, id, must, may, ea[i]) is None);
        if must.contains(ea[i].0) {
            let k = choose|k: int| 0 <= k < must.len() && must[k] == ea[i].0;
            assert(must_fault(sa, id, ea, must[k]) is None);
            assert(has_key(ea, ea[i].0));
            assert(ea[index_of_key(ea, ea[i].0)].0 == ea[i].0);
            assert(index_of_key(ea, ea[i].0) == i);
        }
    }
}

/// Every entry of `repo` but the root satisfies the schema.
pub open spec fn repo_conforms<ID: EntryId>(s: SchemaView, repo: Seq<EntryView<ID::V>>) -> bool {
    forall|i: int|
        0 <= i < repo.len() && (#[trigger] repo[i]).id != Some(ID::root_view()) ==> entry_conforms(
            s,
            repo[i].object_classes,
            repo[i].attributes,
        )
}

/// The entry that the add-entry transaction returns satisfies the schema.
pub proof fn lemma_added_entry_conforms<ID: EntryId>(
    s: SchemaView,
    repo: Seq<EntryView<ID::V>>,
    dn_text: Seq<char>,
    attrs: Seq<(Seq<char>, Seq<Seq<char>>)>,
    fresh: ID::V,
)
    ensures
        add_spec::<ID>(s, repo, dn_text, attrs, fresh).result matches Ok(e) ==> entry_conforms(
            s,
            e.object_classes,
            e.attributes,
        ),
{
    let out = add_spec::<ID>(s, repo, dn_text, attrs, fresh);
    if out.result is Ok {
        let rooted = with_root::<ID>(repo);
        let dn = crate::service::schema::dn_result(s.attributes, dn_text)->Ok_0;
        let entry = add_checked::<ID>(s, rooted, dn_text, dn, attrs)->Ok_0.1;
        crate::service::entry::lemma_built_attrs_wf::<ID>(s, rooted, dn_text, dn, attrs);
        lemma_validated_entry_conforms(s, "No ID"@, entry.object_classes, entry.attributes);
    }
}

/// Where every entry but the root satisfies the schema, every entry but
/// the root does so after the add-entry transaction.
pub proof fn lemma_add_keeps_conformance<ID: EntryId>(
    s: SchemaView,
    repo: Seq<EntryView<ID::V>>,
    dn_text: Seq<char>,
    attrs: Seq<(Seq<char>, Seq<Seq<char>>)>,
    fresh: ID::V,
)
    requires
        repo_wf(repo),
        repo_conforms::<ID>(s, repo),
    ensures
        repo_conforms::<ID>(s, add_spec::<ID>(s, repo, dn_text, attrs, fresh).repo),
{
    let out = add_spec::<ID>(s, repo, dn_text, attrs, fresh);
    let rooted = with_root::<ID>(repo);
    crate::service::entry::lemma_with_root::<ID>(repo);
    assert(repo_conforms::<ID>(s, rooted)) by {
        assert forall|i: int|
            0 <= i < rooted.len() && (#[trigger] rooted[i]).id != Some(ID::root_view()) implies entry_conforms(
            s,
            rooted[i].object_classes,
            rooted[i].attributes,
        ) by {
            if i < repo.len() {
                assert(rooted[i] == repo[i]);
            }
        }
    }
    if out.result is Ok {
        let dn = crate::service::schema::dn_result(s.attributes, dn_text)->Ok_0;
        let checked = add_checked::<ID>(s, rooted, dn_text, dn, attrs);
        let parent = checked->Ok_0.0;
        let entry = checked->Ok_0.1;
        let stored = EntryView { id: Some(fresh), ..entry };
        lemma_added_entry_conforms::<ID>(s, repo, dn_text, attrs, fresh);
        crate::service::entry::lemma_found_is_stored::<ID>(
            rooted,
            crate::db::repo_get(rooted, ID::root_view())->0,
            crate::service::entry::parent_of(dn),
        );
        let mid = crate::db::store_spec(rooted, stored);
        let last = crate::db::store_spec(mid, with_child(parent, fresh));
        crate::db::lemma_store_members(rooted, stored);
        crate::db::lemma_store_members(mid, with_child(parent, fresh));
        let at = crate::db::repo_index(rooted, parent.id->0);
        assert(rooted[at] == parent);
        assert forall|i: int|
            0 <= i < last.len() && (#[trigger] last[i]).id != Some(ID::root_view()) implies entry_conforms(
            s,
            last[i].object_classes,
            last[i].attributes,
        ) by {
            if last[i] == with_child(parent, fresh) {
            } else {
                let j = choose|j: int| 0 <= j < mid.len() && mid[j] == last[i];
                if mid[j] == stored {
                } else {
                    let k = choose|k: int| 0 <= k < rooted.len() && rooted[k] == mid[j];
                }
            }
        }
    }
}

/// Where every key of `r` is a name of the attribute type that it
/// identifies, renaming the keys of `r` puts each pair where it was.
proof fn lemma_rename_in_place(sa: Seq<AttributeView>, r: Seq<(Seq<char>, Seq<Seq<char>>)>, i: int)
    requires
        0 <= i <= r.len(),
        unique_keys(r),
        names_itself(sa, r),
    ensures
        renamed(sa, r.take(i), r.skip(i)) == r,
    decreases r.len() - i,
{
    if i == r.len() {
        assert(r.skip(i) =~= Seq::<(Seq<char>, Seq<Seq<char>>)>::empty());
        assert(r.take(i) =~= r);
    } else {
        let rest = r.skip(i);
        assert(rest[0] == r[i]);
        assert(rest.drop_first() =~= r.skip(i + 1));
        let acc = r.take(i);
        assert(!has_key(acc, r[i].0)) by {
            if has_key(acc, r[i].0) {
                let j = index_of_key(acc, r[i].0);
                assert(r[j].0 == r[i].0);
            }
        }
        assert(put_spec(acc, r[i].0, r[i].1) =~= r.take(i + 1));
        lemma_rename_in_place(sa, r, i + 1);
    }
}

/// Every key of `r` is a name of the attribute type that it identifies, and none is `objectClass`.
pub open spec fn names_itself(sa: Seq<AttributeView>, r: Seq<(Seq<char>, Seq<Seq<char>>)>) -> bool {
    forall|i: int|
        0 <= i < r.len() ==> (#[trigger] r[i]).0 != "objectClass"@ && attr_by_name(sa, r[i].0) is Some
            && attr_by_name(sa, r[i].0)->0.numericoid == r[i].0
}

/// Renaming keeps the keys apart.
pub proof fn lemma_renamed_unique(
    sa: Seq<AttributeView>,
    acc: Seq<(Seq<char>, Seq<Seq<char>>)>,
    rest: Seq<(Seq<char>, Seq<Seq<char>>)>,
)
    requires
        unique_keys(acc),
    ensures
        unique_keys(renamed(sa, acc, rest)),
    decreases rest.len(),
{
    if rest.len() == 0 {
    } else if rest[0].0 == "objectClass"@ {
        lemma_renamed_unique(sa, acc, rest.drop_first());
    } else {
        let k = attr_by_name(sa, rest[0].0)->0.numericoid;
        lemma_put(acc, k, rest[0].1);
        lemma_renamed_unique(sa, put_spec(acc, k, rest[0].1), rest.drop_first());
    }
}

/// Normalising attributes is idempotent: where the attributes `m` become
/// `r` under their identifiers, and every identifier in `r` is a name of its
/// own attribute type, `r` becomes `r`.
pub proof fn lemma_normalise_attributes_idempotent(
    sa: Seq<AttributeView>,
    m: Seq<(Seq<char>, Seq<Seq<char>>)>,
)
    requires
        attributes_result(sa, m) is Ok,
        names_itself(sa, attributes_result(sa, m)->Ok_0),
    ensures
        attributes_result(sa, attributes_result(sa, m)->Ok_0) == attributes_result(sa, m),
{
    let r = attributes_result(sa, m)->Ok_0;
    lemma_renamed_unique(sa, Seq::empty(), m);
    assert(r.take(0) =~= Seq::<(Seq<char>, Seq<Seq<char>>)>::empty());
    assert(r.skip(0) =~= r);
    lemma_rename_in_place(sa, r, 0);
    assert(!exists|i: int| attr_name_fails_at(sa, r, i));
}

} // verus!
