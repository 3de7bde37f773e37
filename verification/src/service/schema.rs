//! The schema service: turning names into identifiers, and holding entries to the schema.

use crate::db::{
    attr_by_name, attr_by_oid, class_by_name, classes_by_oids, class_ref_views, schema_wf,
    SchemaRepo, SchemaView,
};
use crate::entity::dn::{Rdn, DN};
use crate::entity::entry::{id_str_spec, Entry, EntryId};
use crate::entity::schema::{Attribute, AttributeView, ObjectClass, ObjectClassView, Oid};
use crate::errors::{LdapError, LdapErrorView};
use crate::sets::{extend_spec, has_key, put_spec, value_of, AttributeMap, StringSet};
use crate::text::{concat2, decimal, decimal_spec, split, split_once, split_once_spec, split_spec, str_eq, views_of};
use vstd::prelude::*;
use vstd::string::*;

verus! {

/// What one `name=value` piece of a relative name becomes: the attribute's
/// identifier with the value, or the message that says why it cannot be read.
pub open spec fn pair_result(sa: Seq<AttributeView>, rdn: Seq<char>, piece: Seq<char>) -> Result<
    (Seq<char>, Seq<char>),
    Seq<char>,
> {
    match split_once_spec(piece, '=') {
        None => Err(rdn),
        Some((att, val)) => match attr_by_name(sa, att) {
            None => Err("Could not find attribute "@ + att + " for "@ + rdn),
            Some(a) => Ok((a.numericoid, val)),
        },
    }
}

/// `i` is the place of the first piece that cannot be read.
pub open spec fn piece_fails_at(
    sa: Seq<AttributeView>,
    rdn: Seq<char>,
    pieces: Seq<Seq<char>>,
    i: int,
) -> bool {
    &&& 0 <= i < pieces.len()
    &&& pair_result(sa, rdn, pieces[i]) is Err
    &&& forall|j: int| 0 <= j < i ==> pair_result(sa, rdn, #[trigger] pieces[j]) is Ok
}

/// The relative name that the text `rdn` stands for: its `+`-separated
/// pieces, each read as `name=value`; or the message of the first piece that cannot be read.
pub open spec fn rdn_result(sa: Seq<AttributeView>, rdn: Seq<char>) -> Result<
    Seq<(Seq<char>, Seq<char>)>,
    Seq<char>,
> {
    let pieces = split_spec(rdn, '+');
    if exists|i: int| piece_fails_at(sa, rdn, pieces, i) {
        Err(pair_result(sa, rdn, pieces[choose|i: int| piece_fails_at(sa, rdn, pieces, i)])->Err_0)
    } else {
        Ok(pieces.map_values(|p: Seq<char>| pair_result(sa, rdn, p)->Ok_0))
    }
}

/// `i` is the place of the first relative name that cannot be read.
pub open spec fn rdn_fails_at(sa: Seq<AttributeView>, parts: Seq<Seq<char>>, i: int) -> bool {
    &&& 0 <= i < parts.len()
    &&& rdn_result(sa, parts[i]) is Err
    &&& forall|j: int| 0 <= j < i ==> rdn_result(sa, #[trigger] parts[j]) is Ok
}

/// The distinguished name that the text `dn` stands for: its `,`-separated
/// relative names; or the error of the first one that cannot be read.
pub open spec fn dn_result(sa: Seq<AttributeView>, dn: Seq<char>) -> Result<
    Seq<Seq<(Seq<char>, Seq<char>)>>,
    LdapErrorView,
> {
    let parts = split_spec(dn, ',');
    if exists|i: int| rdn_fails_at(sa, parts, i) {
        Err(
            LdapErrorView::InvalidDN {
                dn,
                msg: rdn_result(sa, parts[choose|i: int| rdn_fails_at(sa, parts, i)])->Err_0,
            },
        )
    } else {
        Ok(parts.map_values(|p: Seq<char>| rdn_result(sa, p)->Ok_0))
    }
}

/// `i` is the place of the first name that no object class has.
pub open spec fn class_name_fails_at(sc: Seq<ObjectClassView>, names: Seq<Seq<char>>, i: int) -> bool {
    &&& 0 <= i < names.len()
    &&& class_by_name(sc, names[i]) is None
    &&& forall|j: int| 0 <= j < i ==> class_by_name(sc, #[trigger] names[j]) is Some
}

/// The identifiers of the object classes that a command names under
/// `objectClass`, or the error where it names none or an unknown one.
pub open spec fn obj_classes_result(sc: Seq<ObjectClassView>, m: Seq<(Seq<char>, Seq<Seq<char>>)>) -> Result<
    Seq<Seq<char>>,
    LdapErrorView,
> {
    let names = value_of(m, "objectClass"@);
    if !has_key(m, "objectClass"@) {
        Err(LdapErrorView::UnknownObjectClass("No object classes specified"@))
    } else if exists|i: int| class_name_fails_at(sc, names, i) {
        Err(LdapErrorView::UnknownObjectClass(names[choose|i: int| class_name_fails_at(sc, names, i)]))
    } else {
        Ok(extend_spec(Seq::empty(), names.map_values(|n: Seq<char>| class_by_name(sc, n)->0.numericoid)))
    }
}

/// `i` is the place of the first key, other than `objectClass`, that no attribute type has as a name.
pub open spec fn attr_name_fails_at(
    sa: Seq<AttributeView>,
    m: Seq<(Seq<char>, Seq<Seq<char>>)>,
    i: int,
) -> bool {
    &&& 0 <= i < m.len()
    &&& m[i].0 != "objectClass"@
    &&& attr_by_name(sa, m[i].0) is None
    &&& forall|j: int|
        0 <= j < i ==> (#[trigger] m[j]).0 == "objectClass"@ || attr_by_name(sa, m[j].0) is Some
}

/// `acc` after putting each pair of `rest`, but `objectClass`, under the
/// identifier that its key names.
pub open spec fn renamed(
    sa: Seq<AttributeView>,
    acc: Seq<(Seq<char>, Seq<Seq<char>>)>,
    rest: Seq<(Seq<char>, Seq<Seq<char>>)>,
) -> Seq<(Seq<char>, Seq<Seq<char>>)>
    decreases rest.len(),
{
    if rest.len() == 0 {
        acc
    } else if rest[0].0 == "objectClass"@ {
        renamed(sa, acc, rest.drop_first())
    } else {
        renamed(sa, put_spec(acc, attr_by_name(sa, rest[0].0)->0.numericoid, rest[0].1), rest.drop_first())
    }
}

/// The attributes of a command under their identifiers, or the error of the first unknown name.
pub open spec fn attributes_result(sa: Seq<AttributeView>, m: Seq<(Seq<char>, Seq<Seq<char>>)>) -> Result<
    Seq<(Seq<char>, Seq<Seq<char>>)>,
    LdapErrorView,
> {
    if exists|i: int| attr_name_fails_at(sa, m, i) {
        Err(LdapErrorView::UnknownAttribute(m[choose|i: int| attr_name_fails_at(sa, m, i)].0))
    } else {
        Ok(renamed(sa, Seq::empty(), m))
    }
}

/// The number of structural classes among `classes`.
pub open spec fn structural_count(classes: Seq<ObjectClassView>) -> nat
    decreases classes.len(),
{
    if classes.len() == 0 {
        0
    } else {
        structural_count(classes.drop_last()) + if classes.last().kind is StructuralClass {
            1nat
        } else {
            0nat
        }
    }
}

/// The attributes that the classes require, each once, in order.
pub open spec fn must_union(classes: Seq<ObjectClassView>) -> Seq<Seq<char>>
    decreases classes.len(),
{
    if classes.len() == 0 {
        Seq::empty()
    } else {
        extend_spec(must_union(classes.drop_last()), classes.last().must_attrs)
    }
}

/// The attributes that the classes allow, each once, in order.
pub open spec fn may_union(classes: Seq<ObjectClassView>) -> Seq<Seq<char>>
    decreases classes.len(),
{
    if classes.len() == 0 {
        Seq::empty()
    } else {
        extend_spec(may_union(classes.drop_last()), classes.last().may_attrs)
    }
}

/// The fault of `count` values under the attribute `a`: none where one is
/// required, or more than one where `a` is single-valued.
pub open spec fn value_fault(id: Seq<char>, a: AttributeView, required: bool, count: nat) -> Option<
    LdapErrorView,
> {
    if required && count == 0 {
        Some(
            LdapErrorView::InvalidEntry {
                id,
                msg: "Entry missing attributes for must attr "@ + a.numericoid,
            },
        )
    } else if a.single_value && count > 1 {
        Some(
            LdapErrorView::InvalidEntry {
                id,
                msg: "Entry has too many values for single attr "@ + a.numericoid + ": "@
                    + decimal_spec(count),
            },
        )
    } else {
        None
    }
}

/// The fault of the required attribute `oid` in an entry of the attributes `ea`.
pub open spec fn must_fault(
    sa: Seq<AttributeView>,
    id: Seq<char>,
    ea: Seq<(Seq<char>, Seq<Seq<char>>)>,
    oid: Seq<char>,
) -> Option<LdapErrorView> {
    if !has_key(ea, oid) {
        Some(LdapErrorView::InvalidEntry { id, msg: "Entry contains is missing a must attr: "@ + oid })
    } else {
        match attr_by_oid(sa, oid) {
            None => Some(LdapErrorView::InvalidSchema(oid)),
            Some(a) => value_fault(id, a, true, value_of(ea, oid).len()),
        }
    }
}

/// The fault of an attribute of an entry that the classes do not require.
pub open spec fn other_fault(
    sa: Seq<AttributeView>,
    id: Seq<char>,
    must: Seq<Seq<char>>,
    may: Seq<Seq<char>>,
    pair: (Seq<char>, Seq<Seq<char>>),
) -> Option<LdapErrorView> {
    if must.contains(pair.0) {
        None
    } else if !may.contains(pair.0) {
        Some(
            LdapErrorView::InvalidEntry {
                id,
                msg: "Entry contains an attr not in the schema: "@ + pair.0,
            },
        )
    } else {
        match attr_by_oid(sa, pair.0) {
            None => Some(LdapErrorView::InvalidSchema(pair.0)),
            Some(a) => value_fault(id, a, false, pair.1.len()),
        }
    }
}

/// `i` is the place of the first required attribute with a fault.
pub open spec fn must_fault_at(
    sa: Seq<AttributeView>,
    id: Seq<char>,
    ea: Seq<(Seq<char>, Seq<Seq<char>>)>,
    must: Seq<Seq<char>>,
    i: int,
) -> bool {
    &&& 0 <= i < must.len()
    &&& must_fault(sa, id, ea, must[i]) is Some
    &&& forall|j: int| 0 <= j < i ==> must_fault(sa, id, ea, #[trigger] must[j]) is None
}

/// `i` is the place of the first attribute of the entry with a fault of its own.
pub open spec fn other_fault_at(
    sa: Seq<AttributeView>,
    id: Seq<char>,
    must: Seq<Seq<char>>,
    may: Seq<Seq<char>>,
    ea: Seq<(Seq<char>, Seq<Seq<char>>)>,
    i: int,
) -> bool {
    &&& 0 <= i < ea.len()
    &&& other_fault(sa, id, must, may, ea[i]) is Some
    &&& forall|j: int| 0 <= j < i ==> other_fault(sa, id, must, may, #[trigger] ea[j]) is None
}

/// The first fault among the attributes of an entry: the required ones
/// first, in their order, then the entry's own, in theirs.
pub open spec fn attributes_fault(
    sa: Seq<AttributeView>,
    id: Seq<char>,
    must: Seq<Seq<char>>,
    may: Seq<Seq<char>>,
    ea: Seq<(Seq<char>, Seq<Seq<char>>)>,
) -> Option<LdapErrorView> {
    if exists|i: int| must_fault_at(sa, id, ea, must, i) {
        must_fault(sa, id, ea, must[choose|i: int| must_fault_at(sa, id, ea, must, i)])
    } else if exists|i: int| other_fault_at(sa, id, must, may, ea, i) {
        other_fault(sa, id, must, may, ea[choose|i: int| other_fault_at(sa, id, must, may, ea, i)])
    } else {
        None
    }
}

/// The fault of the structural classes: none where exactly one class is structural.
pub open spec fn structural_fault(id: Seq<char>, classes: Seq<ObjectClassView>) -> Option<
    LdapErrorView,
> {
    if structural_count(classes) != 1 {
        Some(
            LdapErrorView::InvalidEntry {
                id,
                msg: "Expected 1 structural obj class, got "@ + decimal_spec(
                    structural_count(classes),
                ),
            },
        )
    } else {
        None
    }
}

/// Why an entry of the object classes `oc` and the attributes `ea` does not
/// satisfy the schema; `None` where it does.
pub open spec fn validation_fault(
    s: SchemaView,
    id: Seq<char>,
    oc: Seq<Seq<char>>,
    ea: Seq<(Seq<char>, Seq<Seq<char>>)>,
) -> Option<LdapErrorView> {
    match classes_by_oids(s.object_classes, oc) {
        None => Some(
            LdapErrorView::InvalidEntry { id, msg: "Could not get all object classes for entry"@ },
        ),
        Some(classes) => if structural_fault(id, classes) is Some {
            structural_fault(id, classes)
        } else {
            attributes_fault(s.attributes, id, must_union(classes), may_union(classes), ea)
        },
    }
}

/// The rules of a schema: turning names into identifiers, and holding entries to the schema.
pub trait SchemaService {
    /// The schema that the service consults.
    spec fn schema(&self) -> SchemaView;

    /// Reads the text of a distinguished name: relative names joined by `,`.
    fn create_normalised_dn(&self, dn_str: &str) -> (r: Result<DN, LdapError>)
        ensures
            match r {
                Ok(dn) => dn_result(self.schema().attributes, dn_str@) == Ok::<
                    Seq<Seq<(Seq<char>, Seq<char>)>>,
                    LdapErrorView,
                >(dn@),
                Err(e) => dn_result(self.schema().attributes, dn_str@) == Err::<
                    Seq<Seq<(Seq<char>, Seq<char>)>>,
                    LdapErrorView,
                >(e@),
            },
    ;

    /// The identifiers of the object classes that the command's attributes name under `objectClass`.
    fn get_normalised_obj_classes(&self, attributes: &AttributeMap) -> (r: Result<
        StringSet,
        LdapError,
    >)
        requires
            attributes.wf(),
        ensures
            match r {
                Ok(set) => obj_classes_result(self.schema().object_classes, attributes@) == Ok::<
                    Seq<Seq<char>>,
                    LdapErrorView,
                >(set@) && set.wf(),
                Err(e) => obj_classes_result(self.schema().object_classes, attributes@) == Err::<
                    Seq<Seq<char>>,
                    LdapErrorView,
                >(e@),
            },
    ;

    /// The command's attributes, but `objectClass`, each under the
    /// identifier of the attribute type that its name stands for.
    fn get_normalised_attributes(&self, attributes: &AttributeMap) -> (r: Result<
        AttributeMap,
        LdapError,
    >)
        requires
            attributes.wf(),
        ensures
            match r {
                Ok(m) => attributes_result(self.schema().attributes, attributes@) == Ok::<
                    Seq<(Seq<char>, Seq<Seq<char>>)>,
                    LdapErrorView,
                >(m@) && m.wf(),
                Err(e) => attributes_result(self.schema().attributes, attributes@) == Err::<
                    Seq<(Seq<char>, Seq<Seq<char>>)>,
                    LdapErrorView,
                >(e@),
            },
    ;

    /// Holds `entry` to the schema: its object classes are defined, exactly
    /// one of them is structural, and its attributes are what they ask for.
    fn validate_entry<ID: EntryId>(&self, entry: &Entry<ID>) -> (r: Result<(), LdapError>)
        requires
            schema_wf(self.schema()),
            entry.wf(),
        ensures
            match r {
                Ok(_) => validation_fault(
                    self.schema(),
                    id_str_spec::<ID>(entry@.id),
                    entry@.object_classes,
                    entry@.attributes,
                ) is None,
                Err(e) => validation_fault(
                    self.schema(),
                    id_str_spec::<ID>(entry@.id),
                    entry@.object_classes,
                    entry@.attributes,
                ) == Some(e@),
            },
    ;
}

/// The schema service: the rules of the schema, over a schema repository.
pub struct SchemaServiceImpl<'a, R: SchemaRepo> {
    schema_repo: &'a R,
}

impl<'a, R: SchemaRepo> SchemaServiceImpl<'a, R> {
    /// The schema is well formed.
    pub open spec fn wf(&self) -> bool {
        schema_wf(self.schema())
    }

    pub fn new(schema_repo: &'a R) -> (r: Self)
        ensures
            r.schema() == schema_repo.definitions(),
    {
        SchemaServiceImpl { schema_repo }
    }

    /// Reads the text of a relative name: `name=value` pieces joined by `+`,
    /// each name replaced by the identifier of the attribute type that has it.
    pub fn create_normalised_rdn(&self, rdn_str: &str) -> (r: Result<Rdn, String>)
        ensures
            match r {
                Ok(rdn) => rdn_result(self.schema().attributes, rdn_str@) == Ok::<
                    Seq<(Seq<char>, Seq<char>)>,
                    Seq<char>,
                >(rdn@),
                Err(msg) => rdn_result(self.schema().attributes, rdn_str@) == Err::<
                    Seq<(Seq<char>, Seq<char>)>,
                    Seq<char>,
                >(msg@),
            },
    {
        let ghost sa = self.schema().attributes;
        let pieces = split(rdn_str, '+');
        let ghost ps = split_spec(rdn_str@, '+');
        let mut pairs: Vec<(Oid, String)> = Vec::new();
        let mut i: usize = 0;
        while i < pieces.len()
            invariant
                i <= pieces.len(),
                sa == self.schema().attributes,
                ps == views_of(pieces@),
                ps == split_spec(rdn_str@, '+'),
                pairs@.len() == i,
                forall|k: int| 0 <= k < i ==> pair_result(sa, rdn_str@, #[trigger] ps[k]) is Ok,
                forall|k: int|
                    0 <= k < i ==> pair_result(sa, rdn_str@, ps[k])->Ok_0 == ((#[trigger] pairs@[k]).0@, pairs@[k].1@),
            decreases pieces.len() - i,
        {
            assert(ps[i as int] == pieces@[i as int]@);
            match split_once(pieces[i], '=') {
                None => {
                    assert(piece_fails_at(sa, rdn_str@, ps, i as int));
                    return Err(String::from_str(rdn_str));
                },
                Some((att, val)) => {
                    match self.schema_repo.find_attribute_by_name(att) {
                        None => {
                            assert(piece_fails_at(sa, rdn_str@, ps, i as int));
                            let mut msg = concat2("Could not find attribute ", att);
                            msg.append(" for ");
                            msg.append(rdn_str);
                            return Err(msg);
                        },
                        Some(a) => {
                            pairs.push((a.get_numericoid().clone(), String::from_str(val)));
                        },
                    }
                },
            }
            i += 1;
        }
        let rdn = Rdn::from_pairs(pairs);
        proof {
            assert(rdn@ =~= ps.map_values(|p: Seq<char>| pair_result(sa, rdn_str@, p)->Ok_0));
        }
        Ok(rdn)
    }

    /// Holds the entry to having exactly one structural object class.
    pub fn count_stuctural_obj_classes<ID: EntryId>(
        &self,
        entry: &Entry<ID>,
        e_obj_classes: &Vec<&ObjectClass>,
    ) -> (r: Result<(), LdapError>)
        ensures
            match r {
                Ok(_) => structural_fault(id_str_spec::<ID>(entry@.id), class_ref_views(e_obj_classes@))
                    is None,
                Err(e) => structural_fault(id_str_spec::<ID>(entry@.id), class_ref_views(e_obj_classes@))
                    == Some(e@),
            },
    {
        let ghost views = class_ref_views(e_obj_classes@);
        let mut count: usize = 0;
        let mut i: usize = 0;
        proof {
            assert(views.take(0) =~= Seq::<ObjectClassView>::empty());
        }
        while i < e_obj_classes.len()
            invariant
                i <= e_obj_classes.len(),
                views == class_ref_views(e_obj_classes@),
                count <= i,
                count == structural_count(views.take(i as int)),
            decreases e_obj_classes.len() - i,
        {
            proof {
                assert(views.take(i as int + 1).drop_last() =~= views.take(i as int));
                assert(views.take(i as int + 1).last() == e_obj_classes@[i as int]@);
            }
            if e_obj_classes[i].is_structural() {
                count += 1;
            }
            i += 1;
        }
        proof {
            assert(views.take(i as int) =~= views);
        }
        if count != 1 {
            let number = decimal(count as u64);
            Err(
                LdapError::InvalidEntry {
                    id: entry.get_id_str(),
                    msg: concat2("Expected 1 structural obj class, got ", number.as_str()),
                },
            )
        } else {
            Ok(())
        }
    }

    /// Holds the values of one attribute of an entry to the attribute's type.
    pub fn validate_entry_attribute<ID: EntryId>(
        &self,
        entry: &Entry<ID>,
        attribute: &Attribute,
        is_must: bool,
        values: &StringSet,
    ) -> (r: Result<(), LdapError>)
        ensures
            match r {
                Ok(_) => value_fault(id_str_spec::<ID>(entry@.id), attribute@, is_must, values@.len())
                    is None,
                Err(e) => value_fault(id_str_spec::<ID>(entry@.id), attribute@, is_must, values@.len())
                    == Some(e@),
            },
    {
        let val_count = values.len();
        if is_must && val_count == 0 {
            return Err(
                LdapError::InvalidEntry {
                    id: entry.get_id_str(),
                    msg: concat2(
                        "Entry missing attributes for must attr ",
                        attribute.get_numericoid().as_str(),
                    ),
                },
            );
        }
        if attribute.is_single() && val_count > 1 {
            let mut msg = concat2(
                "Entry has too many values for single attr ",
                attribute.get_numericoid().as_str(),
            );
            msg.append(": ");
            msg.append(decimal(val_count as u64).as_str());
            return Err(LdapError::InvalidEntry { id: entry.get_id_str(), msg });
        }
        Ok(())
    }

    /// The attributes that the classes require, each once.
    fn collect_must(obj_classes: &Vec<&ObjectClass>) -> (r: StringSet)
        requires
            forall|k: int| 0 <= k < obj_classes@.len() ==> (#[trigger] obj_classes@[k]).wf(),
        ensures
            r.wf(),
            r@ == must_union(class_ref_views(obj_classes@)),
    {
        let ghost views = class_ref_views(obj_classes@);
        let mut must = StringSet::new();
        let mut i: usize = 0;
        proof {
            assert(views.take(0) =~= Seq::<ObjectClassView>::empty());
        }
        while i < obj_classes.len()
            invariant
                i <= obj_classes.len(),
                views == class_ref_views(obj_classes@),
                must.wf(),
                must@ == must_union(views.take(i as int)),
            decreases obj_classes.len() - i,
        {
            proof {
                assert(views.take(i as int + 1).drop_last() =~= views.take(i as int));
                assert(views.take(i as int + 1).last() == obj_classes@[i as int]@);
            }
            must.extend(obj_classes[i].get_must_attrs());
            i += 1;
        }
        proof {
            assert(views.take(i as int) =~= views);
        }
        must
    }

    /// The attributes that the classes allow, each once.
    fn collect_may(obj_classes: &Vec<&ObjectClass>) -> (r: StringSet)
        requires
            forall|k: int| 0 <= k < obj_classes@.len() ==> (#[trigger] obj_classes@[k]).wf(),
        ensures
            r.wf(),
            r@ == may_union(class_ref_views(obj_classes@)),
    {
        let ghost views = class_ref_views(obj_classes@);
        let mut may = StringSet::new();
        let mut i: usize = 0;
        proof {
            assert(views.take(0) =~= Seq::<ObjectClassView>::empty());
        }
        while i < obj_classes.len()
            invariant
                i <= obj_classes.len(),
                views == class_ref_views(obj_classes@),
                may.wf(),
                may@ == may_union(views.take(i as int)),
            decreases obj_classes.len() - i,
        {
            proof {
                assert(views.take(i as int + 1).drop_last() =~= views.take(i as int));
                assert(views.take(i as int + 1).last() == obj_classes@[i as int]@);
            }
            may.extend(obj_classes[i].get_may_attrs());
            i += 1;
        }
        proof {
            assert(views.take(i as int) =~= views);
        }
        may
    }

    /// Holds the attributes of an entry to its object classes: every
    /// required attribute is there with a value, every other attribute is
    /// allowed, and no single-valued attribute has more than one value.
    pub fn validate_entry_attributes<ID: EntryId>(
        &self,
        entry: &Entry<ID>,
        obj_classes: &Vec<&ObjectClass>,
    ) -> (r: Result<(), LdapError>)
        requires
            self.wf(),
            entry.wf(),
            forall|k: int| 0 <= k < obj_classes@.len() ==> (#[trigger] obj_classes@[k]).wf(),
        ensures
            match r {
                Ok(_) => attributes_fault(
                    self.schema().attributes,
                    id_str_spec::<ID>(entry@.id),
                    must_union(class_ref_views(obj_classes@)),
                    may_union(class_ref_views(obj_classes@)),
                    entry@.attributes,
                ) is None,
                Err(e) => attributes_fault(
                    self.schema().attributes,
                    id_str_spec::<ID>(entry@.id),
                    must_union(class_ref_views(obj_classes@)),
                    may_union(class_ref_views(obj_classes@)),
                    entry@.attributes,
                ) == Some(e@),
            },
    {
        let ghost sa = self.schema().attributes;
        let ghost id = id_str_spec::<ID>(entry@.id);
        let ghost ea = entry@.attributes;
        let must = Self::collect_must(obj_classes);
        let may = Self::collect_may(obj_classes);
        let e_attrs = entry.get_attributes();
        let mut i: usize = 0;
        while i < must.len()
            invariant
                i <= must@.len(),
                self.wf(),
                entry.wf(),
                sa == self.schema().attributes,
                id == id_str_spec::<ID>(entry@.id),
                ea == entry@.attributes,
                e_attrs@ == ea,
                must@ == must_union(class_ref_views(obj_classes@)),
                may@ == may_union(class_ref_views(obj_classes@)),
                forall|k: int| 0 <= k < i ==> must_fault(sa, id, ea, #[trigger] must@[k]) is None,
            decreases must@.len() - i,
        {
            let oid = must.get(i);
            let values = match e_attrs.get(oid.as_str()) {
                Some(values) => values,
                None => {
                    assert(must_fault_at(sa, id, ea, must@, i as int));
                    return Err(
                        LdapError::InvalidEntry {
                            id: entry.get_id_str(),
                            msg: concat2("Entry contains is missing a must attr: ", oid.as_str()),
                        },
                    );
                },
            };
            let attribute = match self.schema_repo.get_attribute(&Oid::new(oid.as_str())) {
                Some(a) => a,
                None => {
                    assert(must_fault_at(sa, id, ea, must@, i as int));
                    return Err(LdapError::InvalidSchema(oid.clone()));
                },
            };
            match self.validate_entry_attribute(entry, attribute, true, values) {
                Ok(_) => {},
                Err(e) => {
                    assert(must_fault_at(sa, id, ea, must@, i as int));
                    return Err(e);
                },
            }
            i += 1;
        }
        let mut j: usize = 0;
        while j < e_attrs.len()
            invariant
                j <= ea.len(),
                self.wf(),
                entry.wf(),
                sa == self.schema().attributes,
                id == id_str_spec::<ID>(entry@.id),
                ea == entry@.attributes,
                e_attrs@ == ea,
                must@ == must_union(class_ref_views(obj_classes@)),
                may@ == may_union(class_ref_views(obj_classes@)),
                forall|k: int| 0 <= k < must@.len() ==> must_fault(sa, id, ea, #[trigger] must@[k]) is None,
                forall|k: int| 0 <= k < j ==> other_fault(sa, id, must@, may@, #[trigger] ea[k]) is None,
            decreases ea.len() - j,
        {
            let key = e_attrs.key_at(j);
            if !must.contains(key.as_str()) {
                if !may.contains(key.as_str()) {
                    assert(other_fault_at(sa, id, must@, may@, ea, j as int));
                    return Err(
                        LdapError::InvalidEntry {
                            id: entry.get_id_str(),
                            msg: concat2("Entry contains an attr not in the schema: ", key.as_str()),
                        },
                    );
                }
                let attribute = match self.schema_repo.get_attribute(&Oid::new(key.as_str())) {
                    Some(a) => a,
                    None => {
                        assert(other_fault_at(sa, id, must@, may@, ea, j as int));
                        return Err(LdapError::InvalidSchema(key.clone()));
                    },
                };
                match self.validate_entry_attribute(entry, attribute, false, e_attrs.values_at(j)) {
                    Ok(_) => {},
                    Err(e) => {
                        assert(other_fault_at(sa, id, must@, may@, ea, j as int));
                        return Err(e);
                    },
                }
            }
            j += 1;
        }
        Ok(())
    }

    /// The object classes of `entry`, as the schema defines them.
    pub fn get_entry_object_classes<ID: EntryId>(&self, entry: &Entry<ID>) -> (r: Result<
        Vec<&'a ObjectClass>,
        LdapError,
    >)
        requires
            self.wf(),
        ensures
            match r {
                Ok(found) => classes_by_oids(self.schema().object_classes, entry@.object_classes)
                    == Some(class_ref_views(found@)) && forall|k: int|
                    0 <= k < found@.len() ==> (#[trigger] found@[k]).wf(),
                Err(e) => classes_by_oids(self.schema().object_classes, entry@.object_classes) is None
                    && e@ == (LdapErrorView::InvalidEntry {
                    id: id_str_spec::<ID>(entry@.id),
                    msg: "Could not get all object classes for entry"@,
                }),
            },
    {
        match self.schema_repo.get_entry_object_classes(entry) {
            Some(found) => Ok(found),
            None => Err(
                LdapError::InvalidEntry {
                    id: entry.get_id_str(),
                    msg: String::from_str("Could not get all object classes for entry"),
                },
            ),
        }
    }
}

impl<'a, R: SchemaRepo> SchemaService for SchemaServiceImpl<'a, R> {
    closed spec fn schema(&self) -> SchemaView {
        self.schema_repo.definitions()
    }

    /// Reads the text of a distinguished name: relative names joined by `,`.
    fn create_normalised_dn(&self, dn_str: &str) -> (r: Result<DN, LdapError>) {
        let ghost sa = self.schema().attributes;
        let parts = split(dn_str, ',');
        let ghost ps = split_spec(dn_str@, ',');
        let mut rdns: Vec<Rdn> = Vec::new();
        let mut i: usize = 0;
        while i < parts.len()
            invariant
                i <= parts.len(),
                sa == self.schema().attributes,
                ps == views_of(parts@),
                ps == split_spec(dn_str@, ','),
                rdns@.len() == i,
                forall|k: int| 0 <= k < i ==> rdn_result(sa, #[trigger] ps[k]) is Ok,
                forall|k: int| 0 <= k < i ==> rdn_result(sa, ps[k])->Ok_0 == (#[trigger] rdns@[k])@,
            decreases parts.len() - i,
        {
            assert(ps[i as int] == parts@[i as int]@);
            match self.create_normalised_rdn(parts[i]) {
                Ok(rdn) => {
                    rdns.push(rdn);
                },
                Err(msg) => {
                    assert(rdn_fails_at(sa, ps, i as int));
                    return Err(LdapError::InvalidDN { dn: String::from_str(dn_str), msg });
                },
            }
            i += 1;
        }
        let dn = DN::new(rdns);
        proof {
            assert(dn@ =~= ps.map_values(|p: Seq<char>| rdn_result(sa, p)->Ok_0));
        }
        Ok(dn)
    }

    /// The identifiers of the object classes that the command's attributes name under `objectClass`.
    fn get_normalised_obj_classes(&self, attributes: &AttributeMap) -> (r: Result<
        StringSet,
        LdapError,
    >) {
        let ghost sc = self.schema().object_classes;
        let names = match attributes.get("objectClass") {
            Some(names) => names,
            None => {
                return Err(LdapError::UnknownObjectClass(String::from_str("No object classes specified")));
            },
        };
        let ghost oids = names@.map_values(|n: Seq<char>| class_by_name(sc, n)->0.numericoid);
        let mut set = StringSet::new();
        let mut i: usize = 0;
        proof {
            assert(oids.skip(0) =~= oids);
        }
        while i < names.len()
            invariant
                i <= names@.len(),
                sc == self.schema().object_classes,
                names@ == value_of(attributes@, "objectClass"@),
                has_key(attributes@, "objectClass"@),
                oids == names@.map_values(|n: Seq<char>| class_by_name(sc, n)->0.numericoid),
                set.wf(),
                forall|k: int| 0 <= k < i ==> class_by_name(sc, #[trigger] names@[k]) is Some,
                extend_spec(set@, oids.skip(i as int)) == extend_spec(Seq::empty(), oids),
            decreases names@.len() - i,
        {
            match self.schema_repo.find_object_class_by_name(names.get(i).as_str()) {
                Some(class) => {
                    proof {
                        assert(oids.skip(i as int).drop_first() =~= oids.skip(i as int + 1));
                        assert(oids.skip(i as int)[0] == class@.numericoid);
                    }
                    set.insert(class.get_numericoid().to_string());
                },
                None => {
                    assert(class_name_fails_at(sc, names@, i as int));
                    return Err(LdapError::UnknownObjectClass(names.get(i).clone()));
                },
            }
            i += 1;
        }
        proof {
            assert(oids.skip(i as int) =~= Seq::<Seq<char>>::empty());
        }
        Ok(set)
    }

    /// The command's attributes, but `objectClass`, each under the
    /// identifier of the attribute type that its name stands for.
    fn get_normalised_attributes(&self, attributes: &AttributeMap) -> (r: Result<
        AttributeMap,
        LdapError,
    >) {
        let ghost sa = self.schema().attributes;
        let mut attrs = AttributeMap::new();
        let mut i: usize = 0;
        proof {
            assert(attributes@.skip(0) =~= attributes@);
        }
        while i < attributes.len()
            invariant
                i <= attributes@.len(),
                sa == self.schema().attributes,
                attributes.wf(),
                attrs.wf(),
                forall|k: int|
                    0 <= k < i ==> (#[trigger] attributes@[k]).0 == "objectClass"@ || attr_by_name(
                        sa,
                        attributes@[k].0,
                    ) is Some,
                renamed(sa, attrs@, attributes@.skip(i as int)) == renamed(sa, Seq::empty(), attributes@),
            decreases attributes@.len() - i,
        {
            let key = attributes.key_at(i);
            proof {
                assert(attributes@.skip(i as int).drop_first() =~= attributes@.skip(i as int + 1));
                assert(attributes@.skip(i as int)[0] == attributes@[i as int]);
            }
            if !str_eq(key.as_str(), "objectClass") {
                match self.schema_repo.find_attribute_by_name(key.as_str()) {
                    Some(a) => {
                        attrs.insert(a.get_numericoid().to_string(), attributes.values_at(i).clone());
                    },
                    None => {
                        assert(attr_name_fails_at(sa, attributes@, i as int));
                        return Err(LdapError::UnknownAttribute(key.clone()));
                    },
                }
            }
            i += 1;
        }
        proof {
            assert(attributes@.skip(i as int) =~= Seq::<(Seq<char>, Seq<Seq<char>>)>::empty());
        }
        Ok(attrs)
    }

    /// Holds `entry` to the schema: its object classes are defined, exactly
    /// one of them is structural, and its attributes are what they ask for.
    fn validate_entry<ID: EntryId>(&self, entry: &Entry<ID>) -> (r: Result<(), LdapError>) {
        let object_classes = match self.get_entry_object_classes(entry) {
            Ok(found) => found,
            Err(e) => {
                return Err(e);
            },
        };
        match self.count_stuctural_obj_classes(entry, &object_classes) {
            Ok(_) => {},
            Err(e) => {
                return Err(e);
            },
        }
        self.validate_entry_attributes(entry, &object_classes)
    }
}

} // verus!
