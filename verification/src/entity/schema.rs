//! Schema definitions: object identifiers, object classes and attribute types.

use crate::sets::{insert_spec, StringSet};
use vstd::prelude::*;
use vstd::string::*;

verus! {

/// An object identifier: the canonical name of an object class or attribute type.
#[derive(Debug, PartialEq, Eq, Hash)]
pub struct Oid(String);

impl View for Oid {
    type V = Seq<char>;

    closed spec fn view(&self) -> Seq<char> {
        self.0@
    }
}

impl Clone for Oid {
    fn clone(&self) -> (r: Self)
        ensures
            r@ == self@,
    {
        Oid(self.0.clone())
    }
}

impl Default for Oid {
    fn default() -> (r: Self)
        ensures
            r@ == Seq::<char>::empty(),
    {
        Oid(String::new())
    }
}

impl<'a> From<&'a str> for Oid {
    fn from(value: &'a str) -> (r: Oid)
        ensures
            r@ == value@,
    {
        Oid(String::from_str(value))
    }
}

impl<'a> vstd::std_specs::convert::FromSpecImpl<&'a str> for Oid {
    open spec fn obeys_from_spec() -> bool {
        false
    }

    open spec fn from_spec(v: &'a str) -> Oid {
        arbitrary()
    }
}

impl From<String> for Oid {
    fn from(value: String) -> (r: Oid)
        ensures
            r@ == value@,
    {
        Oid(value)
    }
}

impl vstd::std_specs::convert::FromSpecImpl<String> for Oid {
    open spec fn obeys_from_spec() -> bool {
        false
    }

    open spec fn from_spec(v: String) -> Oid {
        arbitrary()
    }
}

impl Oid {
    pub fn new(oid: &str) -> (r: Oid)
        ensures
            r@ == oid@,
    {
        Oid(String::from_str(oid))
    }

    /// The identifier's text.
    pub fn as_str(&self) -> (r: &str)
        ensures
            r@ == self@,
    {
        self.0.as_str()
    }

    /// The identifier's text, owned.
    pub fn to_string(&self) -> (r: String)
        ensures
            r@ == self@,
    {
        self.0.clone()
    }
}

/// The kind of an object class.
#[derive(Debug, Copy, Clone)]
pub enum Kind {
    Abstract,
    StructuralClass,
    Auxiliary,
}

impl Kind {
    pub fn is_structural(&self) -> (r: bool)
        ensures
            r == (*self is StructuralClass),
    {
        matches!(self, Kind::StructuralClass)
    }
}

impl Default for Kind {
    fn default() -> (r: Self)
        ensures
            r is Auxiliary,
    {
        Kind::Auxiliary
    }
}

/// The equality matching rule of an attribute type.
#[derive(Debug, Copy, Clone)]
pub enum EqualityRule {
    NoRule,
}

impl Default for EqualityRule {
    fn default() -> (r: Self)
        ensures
            r is NoRule,
    {
        EqualityRule::NoRule
    }
}

/// The ordering matching rule of an attribute type.
#[derive(Debug, Copy, Clone)]
pub enum OrderingRule {
    NoRule,
}

impl Default for OrderingRule {
    fn default() -> (r: Self)
        ensures
            r is NoRule,
    {
        OrderingRule::NoRule
    }
}

/// The substring matching rule of an attribute type.
#[derive(Debug, Copy, Clone)]
pub enum SubstringRule {
    NoRule,
}

impl Default for SubstringRule {
    fn default() -> (r: Self)
        ensures
            r is NoRule,
    {
        SubstringRule::NoRule
    }
}

/// How an attribute type is used.
#[derive(Debug, Copy, Clone)]
pub enum Usage {
    UserApplications,
    DirectoryOperations,
    DistributedOperation,
    DSAOperatoin,
}

impl Default for Usage {
    fn default() -> (r: Self)
        ensures
            r is UserApplications,
    {
        Usage::UserApplications
    }
}

/// An object class: the attribute types that an entry of the class must and may have.
#[derive(Debug)]
pub struct ObjectClass {
    numericoid: Oid,
    names: StringSet,
    desc: String,
    obsolete: bool,
    sup_oids: StringSet,
    kind: Kind,
    must_attrs: StringSet,
    may_attrs: StringSet,
}

/// What an [`ObjectClass`] holds, as plain values; sets in insertion order.
pub struct ObjectClassView {
    pub numericoid: Seq<char>,
    pub names: Seq<Seq<char>>,
    pub desc: Seq<char>,
    pub obsolete: bool,
    pub sup_oids: Seq<Seq<char>>,
    pub kind: Kind,
    pub must_attrs: Seq<Seq<char>>,
    pub may_attrs: Seq<Seq<char>>,
}

impl View for ObjectClass {
    type V = ObjectClassView;

    closed spec fn view(&self) -> ObjectClassView {
        ObjectClassView {
            numericoid: self.numericoid@,
            names: self.names@,
            desc: self.desc@,
            obsolete: self.obsolete,
            sup_oids: self.sup_oids@,
            kind: self.kind,
            must_attrs: self.must_attrs@,
            may_attrs: self.may_attrs@,
        }
    }
}

impl Default for ObjectClass {
    fn default() -> (r: Self)
        ensures
            r.wf(),
            r@ == ObjectClass::empty_view(),
    {
        ObjectClass {
            numericoid: Oid::default(),
            names: StringSet::new(),
            desc: String::new(),
            obsolete: false,
            sup_oids: StringSet::new(),
            kind: Kind::default(),
            must_attrs: StringSet::new(),
            may_attrs: StringSet::new(),
        }
    }
}

impl Clone for ObjectClass {
    fn clone(&self) -> (r: Self)
        ensures
            r@ == self@,
    {
        ObjectClass {
            numericoid: self.numericoid.clone(),
            names: self.names.clone(),
            desc: self.desc.clone(),
            obsolete: self.obsolete,
            sup_oids: self.sup_oids.clone(),
            kind: self.kind,
            must_attrs: self.must_attrs.clone(),
            may_attrs: self.may_attrs.clone(),
        }
    }
}

/// Two definitions are equal when their identifiers are equal.
impl PartialEq for ObjectClass {
    fn eq(&self, other: &Self) -> (r: bool) {
        crate::text::str_eq(self.numericoid.as_str(), other.numericoid.as_str())
    }
}

impl vstd::std_specs::cmp::PartialEqSpecImpl for ObjectClass {
    open spec fn obeys_eq_spec() -> bool {
        true
    }

    open spec fn eq_spec(&self, other: &Self) -> bool {
        self@.numericoid == other@.numericoid
    }
}

impl ObjectClass {
    /// No set of `v` holds an item twice.
    pub open spec fn wf_view(v: ObjectClassView) -> bool {
        &&& v.names.no_duplicates()
        &&& v.sup_oids.no_duplicates()
        &&& v.must_attrs.no_duplicates()
        &&& v.may_attrs.no_duplicates()
    }

    /// No set of the definition holds an item twice.
    pub open spec fn wf(&self) -> bool {
        Self::wf_view(self@)
    }

    /// The view of a definition with nothing set.
    pub open spec fn empty_view() -> ObjectClassView {
        ObjectClassView {
            numericoid: Seq::empty(),
            names: Seq::empty(),
            desc: Seq::empty(),
            obsolete: false,
            sup_oids: Seq::empty(),
            kind: Kind::Auxiliary,
            must_attrs: Seq::empty(),
            may_attrs: Seq::empty(),
        }
    }

    pub fn get_numericoid(&self) -> (r: &Oid)
        ensures
            r@ == self@.numericoid,
    {
        &self.numericoid
    }

    pub fn get_names(&self) -> (r: &StringSet)
        ensures
            r@ == self@.names,
            self.wf() ==> r.wf(),
    {
        &self.names
    }

    pub fn add_name(&mut self, name: &str)
        requires
            old(self).wf(),
        ensures
            final(self).wf(),
            final(self)@ == (ObjectClassView { names: insert_spec(old(self)@.names, name@), ..old(self)@ }),
    {
        self.names.insert(String::from_str(name));
    }

    pub fn has_name(&self, name: &str) -> (r: bool)
        ensures
            r == self@.names.contains(name@),
    {
        self.names.contains(name)
    }

    pub fn is_structural(&self) -> (r: bool)
        ensures
            r == (self@.kind is StructuralClass),
    {
        self.kind.is_structural()
    }

    pub fn get_must_attrs(&self) -> (r: &StringSet)
        ensures
            r@ == self@.must_attrs,
            self.wf() ==> r.wf(),
    {
        &self.must_attrs
    }

    pub fn get_may_attrs(&self) -> (r: &StringSet)
        ensures
            r@ == self@.may_attrs,
            self.wf() ==> r.wf(),
    {
        &self.may_attrs
    }

}

/// Builds an [`ObjectClass`] step by step.
pub struct ObjectClassBuilder {
    obj_class: ObjectClass,
}

impl View for ObjectClassBuilder {
    type V = ObjectClassView;

    /// The view of the definition built so far.
    closed spec fn view(&self) -> ObjectClassView {
        self.obj_class@
    }
}

impl ObjectClassBuilder {
    /// No set of the definition built so far holds an item twice.
    pub open spec fn wf(&self) -> bool {
        ObjectClass::wf_view(self@)
    }

    pub fn new() -> (r: Self)
        ensures
            r.wf(),
            r@ == ObjectClass::empty_view(),
    {
        ObjectClassBuilder { obj_class: ObjectClass::default() }
    }

    pub fn set_numericoid(self, numericoid: Oid) -> (r: Self)
        requires
            self.wf(),
        ensures
            r.wf(),
            r@ == (ObjectClassView { numericoid: numericoid@, ..self@ }),
    {
        let mut b = self;
        b.obj_class.numericoid = numericoid;
        b
    }

    pub fn add_name(self, name: &str) -> (r: Self)
        requires
            self.wf(),
        ensures
            r.wf(),
            r@ == (ObjectClassView { names: insert_spec(self@.names, name@), ..self@ }),
    {
        let mut b = self;
        b.obj_class.names.insert(String::from_str(name));
        b
    }

    pub fn set_desc(self, desc: &str) -> (r: Self)
        requires
            self.wf(),
        ensures
            r.wf(),
            r@ == (ObjectClassView { desc: desc@, ..self@ }),
    {
        let mut b = self;
        b.obj_class.desc = String::from_str(desc);
        b
    }

    pub fn set_obsolete(self, obsolete: bool) -> (r: Self)
        requires
            self.wf(),
        ensures
            r.wf(),
            r@ == (ObjectClassView { obsolete: obsolete, ..self@ }),
    {
        let mut b = self;
        b.obj_class.obsolete = obsolete;
        b
    }

    pub fn add_sup_oid(self, sup_oid: Oid) -> (r: Self)
        requires
            self.wf(),
        ensures
            r.wf(),
            r@ == (ObjectClassView { sup_oids: insert_spec(self@.sup_oids, sup_oid@), ..self@ }),
    {
        let mut b = self;
        b.obj_class.sup_oids.insert(sup_oid.to_string());
        b
    }

    pub fn set_kind(self, kind: Kind) -> (r: Self)
        requires
            self.wf(),
        ensures
            r.wf(),
            r@ == (ObjectClassView { kind: kind, ..self@ }),
    {
        let mut b = self;
        b.obj_class.kind = kind;
        b
    }

    pub fn add_must_attr(self, must_attr: Oid) -> (r: Self)
        requires
            self.wf(),
        ensures
            r.wf(),
            r@ == (ObjectClassView { must_attrs: insert_spec(self@.must_attrs, must_attr@), ..self@ }),
    {
        let mut b = self;
        b.obj_class.must_attrs.insert(must_attr.to_string());
        b
    }

    pub fn add_may_attr(self, may_attr: Oid) -> (r: Self)
        requires
            self.wf(),
        ensures
            r.wf(),
            r@ == (ObjectClassView { may_attrs: insert_spec(self@.may_attrs, may_attr@), ..self@ }),
    {
        let mut b = self;
        b.obj_class.may_attrs.insert(may_attr.to_string());
        b
    }

    pub fn build(self) -> (r: ObjectClass)
        ensures
            r@ == self@,
            self.wf() ==> r.wf(),
    {
        self.obj_class
    }
}

/// An attribute type.
#[derive(Debug)]
pub struct Attribute {
    numericoid: Oid,
    names: StringSet,
    desc: String,
    obsolete: bool,
    sup_oids: StringSet,
    equality_rule: EqualityRule,
    ordering_rule: OrderingRule,
    substr_rule: SubstringRule,
    syntax: String,
    single_value: bool,
    collective: bool,
    no_user_modification: bool,
    usage: Usage,
    extensions: String,
}

/// What an [`Attribute`] holds, as plain values; sets in insertion order.
pub struct AttributeView {
    pub numericoid: Seq<char>,
    pub names: Seq<Seq<char>>,
    pub desc: Seq<char>,
    pub obsolete: bool,
    pub sup_oids: Seq<Seq<char>>,
    pub equality_rule: EqualityRule,
    pub ordering_rule: OrderingRule,
    pub substr_rule: SubstringRule,
    pub syntax: Seq<char>,
    pub single_value: bool,
    pub collective: bool,
    pub no_user_modification: bool,
    pub usage: Usage,
    pub extensions: Seq<char>,
}

impl View for Attribute {
    type V = AttributeView;

    closed spec fn view(&self) -> AttributeView {
        AttributeView {
            numericoid: self.numericoid@,
            names: self.names@,
            desc: self.desc@,
            obsolete: self.obsolete,
            sup_oids: self.sup_oids@,
            equality_rule: self.equality_rule,
            ordering_rule: self.ordering_rule,
            substr_rule: self.substr_rule,
            syntax: self.syntax@,
            single_value: self.single_value,
            collective: self.collective,
            no_user_modification: self.no_user_modification,
            usage: self.usage,
            extensions: self.extensions@,
        }
    }
}

impl Default for Attribute {
    fn default() -> (r: Self)
        ensures
            r.wf(),
            r@ == Attribute::empty_view(),
    {
        Attribute {
            numericoid: Oid::default(),
            names: StringSet::new(),
            desc: String::new(),
            obsolete: false,
            sup_oids: StringSet::new(),
            equality_rule: EqualityRule::default(),
            ordering_rule: OrderingRule::default(),
            substr_rule: SubstringRule::default(),
            syntax: String::new(),
            single_value: false,
            collective: false,
            no_user_modification: false,
            usage: Usage::default(),
            extensions: String::new(),
        }
    }
}

impl Clone for Attribute {
    fn clone(&self) -> (r: Self)
        ensures
            r@ == self@,
    {
        Attribute {
            numericoid: self.numericoid.clone(),
            names: self.names.clone(),
            desc: self.desc.clone(),
            obsolete: self.obsolete,
            sup_oids: self.sup_oids.clone(),
            equality_rule: self.equality_rule,
            ordering_rule: self.ordering_rule,
            substr_rule: self.substr_rule,
            syntax: self.syntax.clone(),
            single_value: self.single_value,
            collective: self.collective,
            no_user_modification: self.no_user_modification,
            usage: self.usage,
            extensions: self.extensions.clone(),
        }
    }
}

/// Two definitions are equal when their identifiers are equal.
impl PartialEq for Attribute {
    fn eq(&self, other: &Self) -> (r: bool) {
        crate::text::str_eq(self.numericoid.as_str(), other.numericoid.as_str())
    }
}

impl vstd::std_specs::cmp::PartialEqSpecImpl for Attribute {
    open spec fn obeys_eq_spec() -> bool {
        true
    }

    open spec fn eq_spec(&self, other: &Self) -> bool {
        self@.numericoid == other@.numericoid
    }
}

impl Attribute {
    /// No set of `v` holds an item twice.
    pub open spec fn wf_view(v: AttributeView) -> bool {
        &&& v.names.no_duplicates()
        &&& v.sup_oids.no_duplicates()
    }

    /// No set of the definition holds an item twice.
    pub open spec fn wf(&self) -> bool {
        Self::wf_view(self@)
    }

    /// The view of a definition with nothing set.
    pub open spec fn empty_view() -> AttributeView {
        AttributeView {
            numericoid: Seq::empty(),
            names: Seq::empty(),
            desc: Seq::empty(),
            obsolete: false,
            sup_oids: Seq::empty(),
            equality_rule: EqualityRule::NoRule,
            ordering_rule: OrderingRule::NoRule,
            substr_rule: SubstringRule::NoRule,
            syntax: Seq::empty(),
            single_value: false,
            collective: false,
            no_user_modification: false,
            usage: Usage::UserApplications,
            extensions: Seq::empty(),
        }
    }

    pub fn get_numericoid(&self) -> (r: &Oid)
        ensures
            r@ == self@.numericoid,
    {
        &self.numericoid
    }

    pub fn get_names(&self) -> (r: &StringSet)
        ensures
            r@ == self@.names,
            self.wf() ==> r.wf(),
    {
        &self.names
    }

    pub fn contains_name(&self, name: &str) -> (r: bool)
        ensures
            r == self@.names.contains(name@),
    {
        self.names.contains(name)
    }

    pub fn has_name(&self, name: &str) -> (r: bool)
        ensures
            r == self@.names.contains(name@),
    {
        self.names.contains(name)
    }

    pub fn is_single(&self) -> (r: bool)
        ensures
            r == self@.single_value,
    {
        self.single_value
    }

    /// Holds a list of values to the attribute type: a required attribute
    /// has a value, and a single-valued one has at most one.
    pub fn validate_values(&self, required: bool, values: Vec<&str>) -> (r: Result<(), String>)
        ensures
            match r {
                Ok(_) => !(required && values@.len() == 0) && !(self@.single_value && values@.len() > 1),
                Err(msg) => if required && values@.len() == 0 {
                    msg@ == "values is empty"@
                } else {
                    self@.single_value && values@.len() > 1 && msg@
                        == "multiple values set for a single value attribute"@
                },
            },
    {
        if required && values.len() == 0 {
            return Err(String::from_str("values is empty"));
        }
        if self.single_value && values.len() > 1 {
            return Err(String::from_str("multiple values set for a single value attribute"));
        }
        Ok(())
    }

}

/// Builds an [`Attribute`] step by step.
pub struct AttributeBuilder {
    attribute: Attribute,
}

impl View for AttributeBuilder {
    type V = AttributeView;

    /// The view of the definition built so far.
    closed spec fn view(&self) -> AttributeView {
        self.attribute@
    }
}

impl AttributeBuilder {
    /// No set of the definition built so far holds an item twice.
    pub open spec fn wf(&self) -> bool {
        Attribute::wf_view(self@)
    }

    pub fn new() -> (r: Self)
        ensures
            r.wf(),
            r@ == Attribute::empty_view(),
    {
        AttributeBuilder { attribute: Attribute::default() }
    }

    pub fn set_numericoid(self, numericoid: Oid) -> (r: Self)
        requires
            self.wf(),
        ensures
            r.wf(),
            r@ == (AttributeView { numericoid: numericoid@, ..self@ }),
    {
        let mut b = self;
        b.attribute.numericoid = numericoid;
        b
    }

    pub fn add_name(self, name: &str) -> (r: Self)
        requires
            self.wf(),
        ensures
            r.wf(),
            r@ == (AttributeView { names: insert_spec(self@.names, name@), ..self@ }),
    {
        let mut b = self;
        b.attribute.names.insert(String::from_str(name));
        b
    }

    pub fn set_desc(self, desc: &str) -> (r: Self)
        requires
            self.wf(),
        ensures
            r.wf(),
            r@ == (AttributeView { desc: desc@, ..self@ }),
    {
        let mut b = self;
        b.attribute.desc = String::from_str(desc);
        b
    }

    pub fn set_obsolete(self, obsolete: bool) -> (r: Self)
        requires
            self.wf(),
        ensures
            r.wf(),
            r@ == (AttributeView { obsolete: obsolete, ..self@ }),
    {
        let mut b = self;
        b.attribute.obsolete = obsolete;
        b
    }

    pub fn add_sup_oid(self, sup_oid: Oid) -> (r: Self)
        requires
            self.wf(),
        ensures
            r.wf(),
            r@ == (AttributeView { sup_oids: insert_spec(self@.sup_oids, sup_oid@), ..self@ }),
    {
        let mut b = self;
        b.attribute.sup_oids.insert(sup_oid.to_string());
        b
    }

    pub fn set_equality_rule(self, eq_rule: EqualityRule) -> (r: Self)
        requires
            self.wf(),
        ensures
            r.wf(),
            r@ == (AttributeView { equality_rule: eq_rule, ..self@ }),
    {
        let mut b = self;
        b.attribute.equality_rule = eq_rule;
        b
    }

    pub fn set_ordering_rule(self, ord_rule: OrderingRule) -> (r: Self)
        requires
            self.wf(),
        ensures
            r.wf(),
            r@ == (AttributeView { ordering_rule: ord_rule, ..self@ }),
    {
        let mut b = self;
        b.attribute.ordering_rule = ord_rule;
        b
    }

    pub fn set_syntax(self, syntax: &str) -> (r: Self)
        requires
            self.wf(),
        ensures
            r.wf(),
            r@ == (AttributeView { syntax: syntax@, ..self@ }),
    {
        let mut b = self;
        b.attribute.syntax = String::from_str(syntax);
        b
    }

    pub fn set_single_value(self, single_value: bool) -> (r: Self)
        requires
            self.wf(),
        ensures
            r.wf(),
            r@ == (AttributeView { single_value: single_value, ..self@ }),
    {
        let mut b = self;
        b.attribute.single_value = single_value;
        b
    }

    pub fn set_collective(self, collective: bool) -> (r: Self)
        requires
            self.wf(),
        ensures
            r.wf(),
            r@ == (AttributeView { collective: collective, ..self@ }),
    {
        let mut b = self;
        b.attribute.collective = collective;
        b
    }

    pub fn set_no_user_modification(self, no_user_modification: bool) -> (r: Self)
        requires
            self.wf(),
        ensures
            r.wf(),
            r@ == (AttributeView { no_user_modification: no_user_modification, ..self@ }),
    {
        let mut b = self;
        b.attribute.no_user_modification = no_user_modification;
        b
    }

    pub fn set_usage_rule(self, usage: Usage) -> (r: Self)
        requires
            self.wf(),
        ensures
            r.wf(),
            r@ == (AttributeView { usage: usage, ..self@ }),
    {
        let mut b = self;
        b.attribute.usage = usage;
        b
    }

    pub fn set_extensions(self, extensions: &str) -> (r: Self)
        requires
            self.wf(),
        ensures
            r.wf(),
            r@ == (AttributeView { extensions: extensions@, ..self@ }),
    {
        let mut b = self;
        b.attribute.extensions = String::from_str(extensions);
        b
    }

    pub fn build(self) -> (r: Attribute)
        ensures
            r@ == self@,
            self.wf() ==> r.wf(),
    {
        self.attribute
    }
}

} // verus!
