use ldap_directory::db::{InMemSchemaDb, SchemaRepo};
use ldap_directory::entity::entry::{Entry, EntryBuilder};
use ldap_directory::entity::schema::{AttributeBuilder, Kind, ObjectClassBuilder, Oid};
use ldap_directory::errors::LdapError;
use ldap_directory::service::schema::{SchemaService, SchemaServiceImpl};
use ldap_directory::sets::{AttributeMap, StringSet};

fn person_schema() -> InMemSchemaDb {
    let person_class = ObjectClassBuilder::new()
        .set_numericoid(Oid::new("person-oid"))
        .add_name("person")
        .set_kind(Kind::StructuralClass)
        .add_must_attr(Oid::new("cn-oid"))
        .add_must_attr(Oid::new("sn-oid"))
        .add_may_attr(Oid::new("upw-oid"))
        .build();
    let cn_attr = AttributeBuilder::new()
        .set_numericoid(Oid::new("cn-oid"))
        .add_name("cn")
        .build();
    let sn_attr = AttributeBuilder::new()
        .set_numericoid(Oid::new("sn-oid"))
        .add_name("sn")
        .build();
    let user_pw_attr = AttributeBuilder::new()
        .set_numericoid(Oid::new("upw-oid"))
        .add_name("userPassword")
        .build();
    InMemSchemaDb::new(vec![person_class], vec![cn_attr, sn_attr, user_pw_attr])
}

fn set_of(values: &[&str]) -> StringSet {
    let mut set = StringSet::new();
    for v in values {
        set.insert(v.to_string());
    }
    set
}

fn map_of(pairs: &[(&str, &[&str])]) -> AttributeMap {
    let mut map = AttributeMap::new();
    for (k, vs) in pairs {
        map.insert(k.to_string(), set_of(vs));
    }
    map
}

#[test]
fn schema_test_validate_schema() {
    let p_oid = Oid::new("person-oid");
    let schema_db = person_schema();
    let schema_service = SchemaServiceImpl::new(&schema_db);

    let entry_all_attrs: Entry<String> = EntryBuilder::new()
        .add_object_class(p_oid.clone())
        .add_attr_val(Oid::new("cn-oid"), "My Name")
        .add_attr_val(Oid::new("sn-oid"), "Name")
        .add_attr_val(Oid::new("upw-oid"), "password123")
        .build();

    schema_service.validate_entry(&entry_all_attrs).unwrap();

    let no_entry: Entry<String> = EntryBuilder::new().build();

    schema_service.validate_entry(&no_entry).unwrap_err();

    let entry_must_attrs: Entry<String> = EntryBuilder::new()
        .add_object_class(p_oid.clone())
        .add_attr_val(Oid::new("cn-oid"), "My Name")
        .add_attr_val(Oid::new("sn-oid"), "Name")
        .build();

    schema_service.validate_entry(&entry_must_attrs).unwrap();

    let entry_missing_must_attr: Entry<String> = EntryBuilder::new()
        .add_object_class(p_oid)
        .add_attr_val(Oid::new("cn-oid"), "My Name")
        .add_attr_val(Oid::new("upw-oid"), "password123")
        .build();

    schema_service
        .validate_entry(&entry_missing_must_attr)
        .unwrap_err();
}

#[test]
fn service_test_validate_schema() {
    let schema_db = person_schema();
    let schema_service = SchemaServiceImpl::new(&schema_db);

    let entry_all_attrs: Entry<String> = Entry::new(
        set_of(&["person-oid"]),
        map_of(&[
            ("cn-oid", &["My Name"]),
            ("sn-oid", &["Name"]),
            ("upw-oid", &["password123"]),
        ]),
    );
    schema_service.validate_entry(&entry_all_attrs).unwrap();

    let no_entry: Entry<String> = Entry::new(StringSet::new(), AttributeMap::new());
    schema_service.validate_entry(&no_entry).unwrap_err();

    let entry_must_attrs: Entry<String> = Entry::new(
        set_of(&["person-oid"]),
        map_of(&[("cn-oid", &["My Name"]), ("sn-oid", &["Name"])]),
    );
    schema_service.validate_entry(&entry_must_attrs).unwrap();

    let entry_missing_must_attr: Entry<String> = Entry::new(
        set_of(&["person-oid"]),
        map_of(&[("cn-oid", &["My Name"]), ("upw-oid", &["password123"])]),
    );
    schema_service
        .validate_entry(&entry_missing_must_attr)
        .unwrap_err();
}

#[test]
fn an_entry_without_object_classes_has_no_structural_class() {
    let schema_db = person_schema();
    let schema_service = SchemaServiceImpl::new(&schema_db);
    let no_entry: Entry<String> = EntryBuilder::new().build();
    match schema_service.validate_entry(&no_entry) {
        Err(LdapError::InvalidEntry { id, msg }) => {
            assert_eq!(id, "No ID");
            assert_eq!(msg, "Expected 1 structural obj class, got 0");
        }
        other => panic!("expected InvalidEntry, got {:?}", other),
    }
}

#[test]
fn a_missing_must_attribute_is_named() {
    let schema_db = person_schema();
    let schema_service = SchemaServiceImpl::new(&schema_db);
    let entry: Entry<u64> = EntryBuilder::new()
        .set_id(42)
        .add_object_class(Oid::new("person-oid"))
        .add_attr_val(Oid::new("cn-oid"), "My Name")
        .add_attr_val(Oid::new("upw-oid"), "password123")
        .build();
    match schema_service.validate_entry(&entry) {
        Err(LdapError::InvalidEntry { id, msg }) => {
            assert_eq!(id, "42");
            assert_eq!(msg, "Entry contains is missing a must attr: sn-oid");
        }
        other => panic!("expected InvalidEntry, got {:?}", other),
    }
}

#[test]
fn an_unknown_object_class_is_refused() {
    let schema_db = person_schema();
    let schema_service = SchemaServiceImpl::new(&schema_db);
    let entry: Entry<String> = EntryBuilder::new()
        .add_object_class(Oid::new("ghost-oid"))
        .build();
    match schema_service.validate_entry(&entry) {
        Err(LdapError::InvalidEntry { msg, .. }) => {
            assert_eq!(msg, "Could not get all object classes for entry");
        }
        other => panic!("expected InvalidEntry, got {:?}", other),
    }
}

#[test]
fn an_attribute_outside_must_and_may_is_refused() {
    let schema_db = person_schema();
    let schema_service = SchemaServiceImpl::new(&schema_db);
    let entry: Entry<String> = EntryBuilder::new()
        .add_object_class(Oid::new("person-oid"))
        .add_attr_val(Oid::new("cn-oid"), "My Name")
        .add_attr_val(Oid::new("sn-oid"), "Name")
        .add_attr_val(Oid::new("dc-oid"), "dev")
        .build();
    match schema_service.validate_entry(&entry) {
        Err(LdapError::InvalidEntry { msg, .. }) => {
            assert_eq!(msg, "Entry contains an attr not in the schema: dc-oid");
        }
        other => panic!("expected InvalidEntry, got {:?}", other),
    }
}

#[test]
fn a_single_valued_attribute_takes_one_value() {
    let person_class = ObjectClassBuilder::new()
        .set_numericoid(Oid::new("person-oid"))
        .set_kind(Kind::StructuralClass)
        .add_must_attr(Oid::new("cn-oid"))
        .build();
    let cn_attr = AttributeBuilder::new()
        .set_numericoid(Oid::new("cn-oid"))
        .add_name("cn")
        .set_single_value(true)
        .build();
    let schema_db = InMemSchemaDb::new(vec![person_class], vec![cn_attr]);
    let schema_service = SchemaServiceImpl::new(&schema_db);
    let one: Entry<String> = EntryBuilder::new()
        .add_object_class(Oid::new("person-oid"))
        .add_attr_val(Oid::new("cn-oid"), "a")
        .build();
    schema_service.validate_entry(&one).unwrap();
    let two: Entry<String> = EntryBuilder::new()
        .add_object_class(Oid::new("person-oid"))
        .add_attr_val(Oid::new("cn-oid"), "a")
        .add_attr_val(Oid::new("cn-oid"), "b")
        .build();
    match schema_service.validate_entry(&two) {
        Err(LdapError::InvalidEntry { msg, .. }) => {
            assert_eq!(msg, "Entry has too many values for single attr cn-oid: 2");
        }
        other => panic!("expected InvalidEntry, got {:?}", other),
    }
}

#[test]
fn a_must_attribute_needs_a_value() {
    let schema_db = person_schema();
    let schema_service = SchemaServiceImpl::new(&schema_db);
    let entry: Entry<String> = Entry::new(
        set_of(&["person-oid"]),
        map_of(&[("cn-oid", &[]), ("sn-oid", &["Name"])]),
    );
    match schema_service.validate_entry(&entry) {
        Err(LdapError::InvalidEntry { msg, .. }) => {
            assert_eq!(msg, "Entry missing attributes for must attr cn-oid");
        }
        other => panic!("expected InvalidEntry, got {:?}", other),
    }
}

#[test]
fn an_undefined_must_attribute_is_a_schema_error() {
    let person_class = ObjectClassBuilder::new()
        .set_numericoid(Oid::new("person-oid"))
        .set_kind(Kind::StructuralClass)
        .add_must_attr(Oid::new("cn-oid"))
        .build();
    let schema_db = InMemSchemaDb::new(vec![person_class], vec![]);
    let schema_service = SchemaServiceImpl::new(&schema_db);
    let entry: Entry<String> = EntryBuilder::new()
        .add_object_class(Oid::new("person-oid"))
        .add_attr_val(Oid::new("cn-oid"), "a")
        .build();
    match schema_service.validate_entry(&entry) {
        Err(LdapError::InvalidSchema(oid)) => assert_eq!(oid, "cn-oid"),
        other => panic!("expected InvalidSchema, got {:?}", other),
    }
}

#[test]
fn two_structural_classes_are_one_too_many() {
    let a = ObjectClassBuilder::new()
        .set_numericoid(Oid::new("a-oid"))
        .set_kind(Kind::StructuralClass)
        .build();
    let b = ObjectClassBuilder::new()
        .set_numericoid(Oid::new("b-oid"))
        .set_kind(Kind::StructuralClass)
        .build();
    let c = ObjectClassBuilder::new().set_numericoid(Oid::new("c-oid")).build();
    let schema_db = InMemSchemaDb::new(vec![a, b, c], vec![]);
    let schema_service = SchemaServiceImpl::new(&schema_db);
    let entry: Entry<String> = EntryBuilder::new()
        .add_object_class(Oid::new("a-oid"))
        .add_object_class(Oid::new("b-oid"))
        .build();
    match schema_service.validate_entry(&entry) {
        Err(LdapError::InvalidEntry { msg, .. }) => {
            assert_eq!(msg, "Expected 1 structural obj class, got 2");
        }
        other => panic!("expected InvalidEntry, got {:?}", other),
    }
    let aux_only: Entry<String> = EntryBuilder::new()
        .add_object_class(Oid::new("a-oid"))
        .add_object_class(Oid::new("c-oid"))
        .build();
    schema_service.validate_entry(&aux_only).unwrap();
}

#[test]
fn object_class_names_become_oids() {
    let schema_db = person_schema();
    let schema_service = SchemaServiceImpl::new(&schema_db);
    let attrs = map_of(&[("objectClass", &["person"]), ("cn", &["x"])]);
    let oc = schema_service.get_normalised_obj_classes(&attrs).unwrap();
    assert_eq!(oc.len(), 1);
    assert!(oc.contains("person-oid"));

    let none = map_of(&[("cn", &["x"])]);
    match schema_service.get_normalised_obj_classes(&none) {
        Err(LdapError::UnknownObjectClass(m)) => assert_eq!(m, "No object classes specified"),
        other => panic!("expected UnknownObjectClass, got {:?}", other),
    }
    let unknown = map_of(&[("objectClass", &["person", "robot"])]);
    match schema_service.get_normalised_obj_classes(&unknown) {
        Err(LdapError::UnknownObjectClass(m)) => assert_eq!(m, "robot"),
        other => panic!("expected UnknownObjectClass, got {:?}", other),
    }
}

#[test]
fn attribute_names_become_oids() {
    let schema_db = person_schema();
    let schema_service = SchemaServiceImpl::new(&schema_db);
    let attrs = map_of(&[
        ("objectClass", &["person"]),
        ("cn", &["x", "y"]),
        ("userPassword", &["pw"]),
    ]);
    let named = schema_service.get_normalised_attributes(&attrs).unwrap();
    assert_eq!(named.len(), 2);
    assert_eq!(named.key_at(0), "cn-oid");
    assert_eq!(named.key_at(1), "upw-oid");
    assert_eq!(named.get("cn-oid").unwrap().len(), 2);
    assert!(named.get("cn-oid").unwrap().contains("y"));
    assert!(named.get("objectClass").is_none());

    let unknown = map_of(&[("cn", &["x"]), ("shoeSize", &["9"])]);
    match schema_service.get_normalised_attributes(&unknown) {
        Err(LdapError::UnknownAttribute(m)) => assert_eq!(m, "shoeSize"),
        other => panic!("expected UnknownAttribute, got {:?}", other),
    }
}

#[test]
fn normalising_attributes_twice_changes_nothing_more() {
    let schema_db = InMemSchemaDb::new(
        vec![],
        vec![
            AttributeBuilder::new()
                .set_numericoid(Oid::new("cn-oid"))
                .add_name("cn")
                .add_name("cn-oid")
                .build(),
            AttributeBuilder::new()
                .set_numericoid(Oid::new("sn-oid"))
                .add_name("sn")
                .add_name("sn-oid")
                .build(),
        ],
    );
    let schema_service = SchemaServiceImpl::new(&schema_db);
    let attrs = map_of(&[("sn", &["b"]), ("objectClass", &["p"]), ("cn", &["a", "c"])]);
    let once = schema_service.get_normalised_attributes(&attrs).unwrap();
    let twice = schema_service.get_normalised_attributes(&once).unwrap();
    assert_eq!(once.len(), twice.len());
    for i in 0..once.len() {
        assert_eq!(once.key_at(i), twice.key_at(i));
        assert_eq!(once.values_at(i).len(), twice.values_at(i).len());
        for j in 0..once.values_at(i).len() {
            assert_eq!(once.values_at(i).get(j), twice.values_at(i).get(j));
        }
    }
    assert_eq!(once.key_at(0), "sn-oid");
}

#[test]
fn schema_lookups_by_oid_and_name() {
    let schema_db = person_schema();
    assert!(schema_db.get_object_class(&Oid::new("person-oid")).unwrap().is_structural());
    assert!(schema_db.get_object_class(&Oid::new("person")).is_none());
    assert_eq!(
        schema_db.find_object_class_by_name("person").unwrap().get_numericoid().as_str(),
        "person-oid"
    );
    assert!(schema_db.find_object_class_by_name("Person").is_none());
    assert_eq!(
        schema_db.find_attribute_by_name("userPassword").unwrap().get_numericoid().as_str(),
        "upw-oid"
    );
    assert!(schema_db.get_attribute(&Oid::new("upw-oid")).unwrap().has_name("userPassword"));
    assert!(schema_db.get_attribute(&Oid::new("nope")).is_none());
    let person = schema_db.get_object_class(&Oid::new("person-oid")).unwrap();
    let (must, may) = schema_db.find_object_class_attrs(person).unwrap();
    assert_eq!(must.len(), 2);
    assert_eq!(may.len(), 1);
    assert_eq!(may[0].get_numericoid().as_str(), "upw-oid");
    let names = vec!["sn".to_string(), "cn".to_string()];
    let found = schema_db.find_all_attributes_by_name(&names).unwrap();
    assert_eq!(found[0].get_numericoid().as_str(), "sn-oid");
    assert!(schema_db.find_all_attributes_by_name(&vec!["zz".to_string()]).is_none());
}

#[test]
fn a_later_definition_replaces_an_earlier_one() {
    let first = AttributeBuilder::new()
        .set_numericoid(Oid::new("cn-oid"))
        .add_name("cn")
        .build();
    let second = AttributeBuilder::new()
        .set_numericoid(Oid::new("cn-oid"))
        .add_name("commonName")
        .set_single_value(true)
        .build();
    let schema_db = InMemSchemaDb::new(vec![], vec![first, second]);
    let got = schema_db.get_attribute(&Oid::new("cn-oid")).unwrap();
    assert!(got.is_single());
    assert!(got.contains_name("commonName"));
    assert!(!got.contains_name("cn"));
}
