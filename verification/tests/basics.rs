use ldap_directory::entity::schema::{
    Attribute, AttributeBuilder, EqualityRule, Kind, ObjectClass, ObjectClassBuilder, Oid,
    OrderingRule, Usage,
};
use ldap_directory::sets::{AttributeMap, StringSet};
use ldap_directory::text::{concat2, decimal, join, split, split_once};

#[test]
fn splitting_text() {
    assert_eq!(split("a,b,c", ','), vec!["a", "b", "c"]);
    assert_eq!(split("", ','), vec![""]);
    assert_eq!(split(",", ','), vec!["", ""]);
    assert_eq!(split("a,,b,", ','), vec!["a", "", "b", ""]);
    assert_eq!(split("no separator", '+'), vec!["no separator"]);
    assert_eq!(split("é+ü", '+'), vec!["é", "ü"]);
    assert_eq!(split_once("k=v=w", '='), Some(("k", "v=w")));
    assert_eq!(split_once("=v", '='), Some(("", "v")));
    assert_eq!(split_once("k=", '='), Some(("k", "")));
    assert_eq!(split_once("kv", '='), None);
}

#[test]
fn joining_text() {
    let parts = vec!["a".to_string(), "".to_string(), "c".to_string()];
    assert_eq!(join(&parts, ","), "a,,c");
    assert_eq!(join(&vec![], ","), "");
    assert_eq!(join(&vec!["x".to_string()], "+"), "x");
    assert_eq!(concat2("ab", "cd"), "abcd");
}

#[test]
fn decimal_text() {
    assert_eq!(decimal(0), "0");
    assert_eq!(decimal(9), "9");
    assert_eq!(decimal(10), "10");
    assert_eq!(decimal(1234567890), "1234567890");
    assert_eq!(decimal(u64::MAX), "18446744073709551615");
}

#[test]
fn a_string_set_keeps_order_and_holds_nothing_twice() {
    let mut set = StringSet::new();
    assert!(set.insert("b".to_string()));
    assert!(set.insert("a".to_string()));
    assert!(!set.insert("b".to_string()));
    assert_eq!(set.len(), 2);
    assert_eq!(set.get(0), "b");
    assert_eq!(set.get(1), "a");
    assert!(set.contains("a"));
    assert!(!set.contains("A"));
    let mut other = StringSet::new();
    other.insert("c".to_string());
    other.insert("a".to_string());
    set.extend(&other);
    assert_eq!(set.len(), 3);
    assert_eq!(set.get(2), "c");
    let copy = set.clone();
    assert_eq!(copy.len(), 3);
    assert_eq!(copy.get(0), "b");
}

#[test]
fn an_attribute_map_keeps_one_set_per_key() {
    let mut map = AttributeMap::new();
    map.add_value("cn".to_string(), "x".to_string());
    map.add_value("sn".to_string(), "s".to_string());
    map.add_value("cn".to_string(), "y".to_string());
    map.add_value("cn".to_string(), "x".to_string());
    assert_eq!(map.len(), 2);
    assert_eq!(map.find("sn"), Some(1));
    assert_eq!(map.find("dc"), None);
    assert_eq!(map.get("cn").unwrap().len(), 2);
    let mut replacement = StringSet::new();
    replacement.insert("only".to_string());
    map.insert("cn".to_string(), replacement);
    assert_eq!(map.len(), 2);
    assert_eq!(map.key_at(0), "cn");
    assert_eq!(map.values_at(0).len(), 1);
    assert!(map.get("cn").unwrap().contains("only"));
    assert!(map.clone().get("sn").unwrap().contains("s"));
}

#[test]
fn an_object_class_is_built_step_by_step() {
    let class: ObjectClass = ObjectClassBuilder::new()
        .set_numericoid(Oid::new("person-oid"))
        .add_name("person")
        .add_name("person")
        .set_desc("a person")
        .set_obsolete(false)
        .add_sup_oid(Oid::new("top"))
        .set_kind(Kind::StructuralClass)
        .add_must_attr(Oid::new("cn-oid"))
        .add_may_attr(Oid::new("sn-oid"))
        .build();
    assert_eq!(class.get_numericoid().as_str(), "person-oid");
    assert_eq!(class.get_names().len(), 1);
    assert!(class.has_name("person"));
    assert!(!class.has_name("Person"));
    assert!(class.is_structural());
    assert!(class.get_must_attrs().contains("cn-oid"));
    assert!(class.get_may_attrs().contains("sn-oid"));
    let mut renamed = class.clone();
    renamed.add_name("human");
    assert!(renamed.has_name("human"));
    assert!(!class.has_name("human"));
    assert!(renamed == class);
    assert!(class != ObjectClass::default());
    assert!(!ObjectClass::default().is_structural());
    assert!(!Kind::default().is_structural());
    assert!(!Kind::Abstract.is_structural());
}

#[test]
fn an_attribute_type_is_built_step_by_step() {
    let attribute: Attribute = AttributeBuilder::new()
        .set_numericoid(Oid::new("cn-oid"))
        .add_name("cn")
        .add_name("commonName")
        .set_desc("common name")
        .set_obsolete(true)
        .add_sup_oid(Oid::new("name"))
        .set_equality_rule(EqualityRule::default())
        .set_ordering_rule(OrderingRule::default())
        .set_syntax("directory string")
        .set_single_value(true)
        .set_collective(false)
        .set_no_user_modification(false)
        .set_usage_rule(Usage::default())
        .set_extensions("")
        .build();
    assert_eq!(attribute.get_numericoid().to_string(), "cn-oid");
    assert_eq!(attribute.get_names().len(), 2);
    assert!(attribute.contains_name("commonName"));
    assert!(attribute.has_name("cn"));
    assert!(!attribute.has_name("sn"));
    assert!(attribute.is_single());
    assert!(!Attribute::default().is_single());
    let other = AttributeBuilder::new().set_numericoid(Oid::new("cn-oid")).build();
    assert!(attribute == other);
    assert!(attribute != Attribute::default());
    assert_eq!(Oid::new("a"), Oid::new("a").clone());
    assert_eq!(Oid::from("a"), Oid::from("a".to_string()));
    assert_eq!(attribute.validate_values(true, vec!["only"]), Ok(()));
    assert_eq!(attribute.validate_values(true, vec![]), Err("values is empty".to_string()));
    assert_eq!(attribute.validate_values(false, vec![]), Ok(()));
    assert_eq!(
        attribute.validate_values(false, vec!["a", "b"]),
        Err("multiple values set for a single value attribute".to_string())
    );
    assert_eq!(Attribute::default().validate_values(false, vec!["a", "b"]), Ok(()));
    assert_eq!(Oid::default().as_str(), "");
}
