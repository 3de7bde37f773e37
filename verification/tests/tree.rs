use ldap_directory::bootstrap::{populated_entry_repo, populated_schema_repo};
use ldap_directory::commands::AddEntryCommand;
use ldap_directory::db::{random_string_id, EntryRepository, InMemLdapDb, InMemSchemaDb};
use ldap_directory::entity::dn::{Rdn, DN};
use ldap_directory::entity::entry::{Entry, EntryBuilder, EntryId};
use ldap_directory::entity::schema::Oid;
use ldap_directory::errors::LdapError;
use ldap_directory::service::entry::{EntryService, EntryServiceImpl, FindDnResult};
use ldap_directory::service::schema::SchemaServiceImpl;
use ldap_directory::sets::{AttributeMap, StringSet};

fn rdn(oid: &str, value: &str) -> Rdn {
    Rdn::single(Oid::new(oid), value.to_string())
}

fn family() -> (InMemLdapDb<u64>, Entry<u64>) {
    let grandchild: Entry<u64> = EntryBuilder::new()
        .set_id(101)
        .set_parent(102)
        .add_attr_val(Oid::new("cn-oid"), "Grandchild")
        .build();
    let grandsibling: Entry<u64> = EntryBuilder::new()
        .set_id(103)
        .set_parent(104)
        .add_attr_val(Oid::new("cn-oid"), "Grandchild's sibling")
        .build();
    let parent: Entry<u64> = EntryBuilder::new()
        .set_id(102)
        .add_child(101)
        .add_attr_val(Oid::new("ou-oid"), "parent")
        .build();
    let p_sibling: Entry<u64> = EntryBuilder::new()
        .set_id(104)
        .add_child(103)
        .add_attr_val(Oid::new("ou-oid"), "p_sibling")
        .build();
    let root: Entry<u64> = EntryBuilder::new()
        .set_id(u64::root_identifier())
        .add_child(102)
        .add_child(104)
        .add_attr_val(Oid::new("dc-oid"), "com")
        .build();
    (
        InMemLdapDb::with_entries(vec![grandchild.clone(), grandsibling, parent, p_sibling, root]),
        grandchild,
    )
}

fn set_of(values: &[&str]) -> StringSet {
    let mut set = StringSet::new();
    for v in values {
        set.insert(v.to_string());
    }
    set
}

fn command(dn: &str, pairs: &[(&str, &[&str])]) -> AddEntryCommand {
    let mut attributes = AttributeMap::new();
    for (k, vs) in pairs {
        attributes.insert(k.to_string(), set_of(vs));
    }
    AddEntryCommand { dn: dn.to_string(), attributes }
}

#[test]
fn test_find_by_dn() {
    let grandchild: Entry<u64> = EntryBuilder::new()
        .set_id(u64::new_random_id())
        .add_attr_val(Oid::new("cn-oid"), "Grandchild")
        .build();

    let grandsibling: Entry<u64> = EntryBuilder::new()
        .set_id(u64::new_random_id())
        .add_attr_val(Oid::new("cn-oid"), "Grandchild's sibling")
        .build();

    let parent: Entry<u64> = EntryBuilder::new()
        .set_id(u64::new_random_id())
        .add_child(grandchild.get_id().unwrap())
        .add_attr_val(Oid::new("ou-oid"), "parent")
        .build();

    let p_sibling: Entry<u64> = EntryBuilder::new()
        .set_id(u64::new_random_id())
        .add_child(grandsibling.get_id().unwrap())
        .add_attr_val(Oid::new("ou-oid"), "p_sibling")
        .build();

    let root: Entry<u64> = EntryBuilder::new()
        .set_id(u64::root_identifier())
        .add_child(parent.get_id().unwrap())
        .add_child(p_sibling.get_id().unwrap())
        .add_attr_val(Oid::new("dc-oid"), "com")
        .build();

    let entry_repo = InMemLdapDb::with_entries(vec![
        grandchild.clone(),
        grandsibling,
        parent,
        p_sibling,
        root,
    ]);

    let schema_db = InMemSchemaDb::default();
    let schema_service = SchemaServiceImpl::new(&schema_db);
    let mut entry_service = EntryServiceImpl::new(&schema_service, entry_repo);

    let grandchild_dn = DN::new(vec![
        rdn("cn-oid", "Grandchild"),
        rdn("ou-oid", "parent"),
        rdn("dc-oid", "com"),
    ]);

    let res = entry_service.find_by_dn(&grandchild_dn).unwrap();
    assert!(res.is_found());
    let FindDnResult::Found(entry) = res else {
        panic!("entry was not found")
    };
    assert_eq!(entry.get_id(), grandchild.get_id())
}

#[test]
fn an_unknown_name_is_not_found() {
    let (repo, _) = family();
    let schema_db = InMemSchemaDb::default();
    let schema_service = SchemaServiceImpl::new(&schema_db);
    let mut entry_service = EntryServiceImpl::new(&schema_service, repo);
    let dn = DN::new(vec![rdn("cn-oid", "Unknown"), rdn("ou-oid", "parent"), rdn("dc-oid", "com")]);
    match entry_service.find_by_dn(&dn).unwrap() {
        FindDnResult::NotFound(partial) => assert_eq!(partial.to_string(), "dc-oid=com"),
        FindDnResult::Found(_) => panic!("found an entry that is not there"),
    }
    let wrong_root = DN::new(vec![rdn("ou-oid", "parent"), rdn("dc-oid", "org")]);
    match entry_service.find_by_dn(&wrong_root).unwrap() {
        FindDnResult::NotFound(partial) => assert_eq!(partial.len(), 0),
        FindDnResult::Found(_) => panic!("found an entry that is not there"),
    }
    match entry_service.find_by_dn(&DN::default()).unwrap() {
        FindDnResult::NotFound(partial) => assert_eq!(partial.len(), 0),
        FindDnResult::Found(_) => panic!("found an entry for the empty name"),
    }
}

#[test]
fn the_root_answers_to_its_own_name() {
    let (repo, _) = family();
    let schema_db = InMemSchemaDb::default();
    let schema_service = SchemaServiceImpl::new(&schema_db);
    let mut entry_service = EntryServiceImpl::new(&schema_service, repo);
    let dn = DN::new(vec![rdn("dc-oid", "com")]);
    match entry_service.find_by_dn(&dn).unwrap() {
        FindDnResult::Found(e) => assert_eq!(e.get_id(), Some(0)),
        FindDnResult::NotFound(_) => panic!("root not found"),
    }
}

#[test]
fn any_pair_of_a_relative_name_may_match() {
    let (repo, grandchild) = family();
    let schema_db = InMemSchemaDb::default();
    let schema_service = SchemaServiceImpl::new(&schema_db);
    let mut entry_service = EntryServiceImpl::new(&schema_service, repo);
    let multi = Rdn::from_pairs(vec![
        (Oid::new("sn-oid"), "nobody".to_string()),
        (Oid::new("cn-oid"), "Grandchild".to_string()),
    ]);
    assert!(grandchild.matches_rdn(&multi));
    assert!(!grandchild.matches_rdn(&rdn("cn-oid", "grandchild")));
    assert!(!grandchild.matches_rdn(&Rdn::default()));
    let dn = DN::new(vec![multi, rdn("ou-oid", "parent"), rdn("dc-oid", "com")]);
    assert!(entry_service.find_by_dn(&dn).unwrap().is_found());
}

#[test]
fn a_dangling_child_is_an_error() {
    let root: Entry<u64> = EntryBuilder::new()
        .set_id(0)
        .add_child(7)
        .add_attr_val(Oid::new("dc-oid"), "com")
        .build();
    let repo = InMemLdapDb::with_entries(vec![root]);
    let schema_db = InMemSchemaDb::default();
    let schema_service = SchemaServiceImpl::new(&schema_db);
    let mut entry_service = EntryServiceImpl::new(&schema_service, repo);
    let dn = DN::new(vec![rdn("ou-oid", "x"), rdn("dc-oid", "com")]);
    match entry_service.find_by_dn(&dn) {
        Err(LdapError::InvalidEntry { id, msg }) => {
            assert_eq!(id, "0");
            assert_eq!(msg, "Entry has supposed child 7 but could not find");
        }
        other => panic!("expected InvalidEntry, got {:?}", other),
    }
}

#[test]
fn the_root_is_made_on_first_access() {
    let mut repo: InMemLdapDb<String> = InMemLdapDb::new();
    assert_eq!(repo.len(), 0);
    assert!(repo.get_by_id(&"root".to_string()).is_none());
    let root = repo.get_root_entry();
    assert_eq!(root.get_id(), Some("root".to_string()));
    assert_eq!(root.get_id_str(), "root");
    assert_eq!(repo.len(), 1);
    let again = repo.get_root_entry();
    assert_eq!(again.get_id(), Some(String::root_identifier()));
    assert_eq!(repo.len(), 1);
}

#[test]
fn save_gives_an_identifier_and_replaces_by_identifier() {
    let mut repo: InMemLdapDb<u64> = InMemLdapDb::new();
    let fresh: Entry<u64> = EntryBuilder::new().add_attr_val(Oid::new("cn-oid"), "a").build();
    assert_eq!(fresh.get_id(), None);
    assert_eq!(fresh.get_id_str(), "No ID");
    let stored = repo.save(fresh).unwrap();
    let id = stored.get_id().unwrap();
    assert_eq!(repo.len(), 1);
    assert!(repo.get_by_id(&id).unwrap().matches_rdn(&rdn("cn-oid", "a")));

    let replacement: Entry<u64> = EntryBuilder::new()
        .set_id(id)
        .add_attr_val(Oid::new("cn-oid"), "b")
        .build();
    repo.save(replacement).unwrap();
    assert_eq!(repo.len(), 1);
    assert!(repo.get_by_id(&id).unwrap().matches_rdn(&rdn("cn-oid", "b")));
    assert!(!repo.get_by_id(&id).unwrap().matches_rdn(&rdn("cn-oid", "a")));

    let given = repo.save_with_id(EntryBuilder::new().build(), 77);
    assert_eq!(given.get_id(), Some(77));
    let kept = repo.save_with_id(EntryBuilder::new().set_id(5).build(), 78);
    assert_eq!(kept.get_id(), Some(5));
    assert_eq!(repo.len(), 3);
    assert!(repo.get_by_id(&78).is_none());
}

#[test]
fn identifiers_of_both_kinds() {
    assert_eq!(u64::root_identifier(), 0);
    assert_eq!(String::root_identifier(), "root");
    assert_eq!(u64::default_id(), 0);
    assert_eq!(String::default_id(), "");
    assert_eq!(random_string_id().chars().count(), 10);
    assert_eq!(String::new_random_id().chars().count(), 10);
    assert_eq!(18446744073709551615u64.id_text(), "18446744073709551615");
    assert_eq!(0u64.id_text(), "0");
    assert_eq!(1203u64.id_text(), "1203");
    assert_eq!("abc".to_string().id_text(), "abc");
    assert!(5u64.same_id(&5));
    assert!(!"a".to_string().same_id(&"b".to_string()));
    assert_eq!(9u64.clone_id(), 9);
}

#[test]
fn add_below_the_root() {
    let schema_db = populated_schema_repo();
    let schema_service = SchemaServiceImpl::new(&schema_db);
    let mut entry_service = EntryServiceImpl::new(&schema_service, populated_entry_repo());
    let cmd = command(
        "cn=Alice,dc=dev",
        &[("objectClass", &["person"]), ("sn", &["Liddell"]), ("commonName", &["Al"])],
    );
    let entry = entry_service.add_entry_with_id(cmd, 4242).unwrap();
    assert_eq!(entry.get_id(), Some(4242));
    assert_eq!(*entry.get_parent(), 0);
    assert!(entry.get_object_classes().contains("person-oid"));
    let cn = entry.get_attribute(&Oid::new("cn-oid")).unwrap();
    assert_eq!(cn.len(), 2);
    assert_eq!(cn.get(0), "Alice");
    assert_eq!(cn.get(1), "Al");
    assert!(entry.get_attribute(&Oid::new("sn-oid")).unwrap().contains("Liddell"));
    assert!(entry.get_attribute(&Oid::new("objectClass")).is_none());

    let repo = entry_service.entries();
    assert_eq!(repo.len(), 3);
    assert!(repo.get_by_id(&0).unwrap().has_child(&4242));
    assert_eq!(repo.get_by_id(&4242).unwrap().get_id(), Some(4242));

    let dn = DN::new(vec![rdn("cn-oid", "Al"), rdn("dc-oid", "dev")]);
    match entry_service.find_by_dn(&dn).unwrap() {
        FindDnResult::Found(e) => assert_eq!(e.get_id(), Some(4242)),
        FindDnResult::NotFound(_) => panic!("the new entry is not found"),
    }
}

#[test]
fn add_with_a_random_identifier() {
    let schema_db = populated_schema_repo();
    let schema_service = SchemaServiceImpl::new(&schema_db);
    let mut entry_service = EntryServiceImpl::new(&schema_service, populated_entry_repo());
    let cmd = command("cn=Bob,dc=georgiboy,dc=dev", &[("objectClass", &["person"])]);
    let entry = entry_service.add_entry(cmd).unwrap();
    let id = entry.get_id().unwrap();
    let parent = entry_service.entries().get_by_id(entry.get_parent()).unwrap();
    assert!(parent.has_child(&id));
    assert!(parent.matches_rdn(&rdn("dc-oid", "georgiboy")));
}

#[test]
fn add_twice_is_refused() {
    let schema_db = populated_schema_repo();
    let schema_service = SchemaServiceImpl::new(&schema_db);
    let mut entry_service = EntryServiceImpl::new(&schema_service, populated_entry_repo());
    let cmd = || command("cn=Alice,dc=dev", &[("objectClass", &["person"])]);
    entry_service.add_entry_with_id(cmd(), 1).unwrap();
    match entry_service.add_entry_with_id(cmd(), 2) {
        Err(LdapError::EntryAlreadyExists { dn }) => assert_eq!(dn, "cn=Alice,dc=dev"),
        other => panic!("expected EntryAlreadyExists, got {:?}", other),
    }
    assert_eq!(entry_service.entries().len(), 3);
}

#[test]
fn add_without_a_parent_changes_nothing() {
    let schema_db = populated_schema_repo();
    let schema_service = SchemaServiceImpl::new(&schema_db);
    let mut entry_service = EntryServiceImpl::new(&schema_service, populated_entry_repo());
    let cmd = command("cn=Alice,dc=nowhere,dc=dev", &[("objectClass", &["person"])]);
    match entry_service.add_entry_with_id(cmd, 9) {
        Err(LdapError::EntryDoesNotExists { dn }) => assert_eq!(dn, "dc-oid=dev"),
        other => panic!("expected EntryDoesNotExists, got {:?}", other),
    }
    assert_eq!(entry_service.entries().len(), 2);
    assert!(entry_service.entries().get_by_id(&9).is_none());
    assert_eq!(entry_service.entries().get_by_id(&0).unwrap().get_children().len(), 1);

    let single = command("cn=Alice", &[("objectClass", &["person"])]);
    match entry_service.add_entry_with_id(single, 9) {
        Err(LdapError::EntryDoesNotExists { dn }) => assert_eq!(dn, ""),
        other => panic!("expected EntryDoesNotExists, got {:?}", other),
    }
}

#[test]
fn add_reports_what_the_schema_refuses() {
    let schema_db = populated_schema_repo();
    let schema_service = SchemaServiceImpl::new(&schema_db);
    let mut entry_service = EntryServiceImpl::new(&schema_service, populated_entry_repo());
    assert!(matches!(
        entry_service.add_entry_with_id(command("cn=A;dc=dev", &[]), 9),
        Err(LdapError::EntryDoesNotExists { .. })
    ));
    assert!(matches!(
        entry_service.add_entry_with_id(command("nothing", &[]), 9),
        Err(LdapError::InvalidDN { .. })
    ));
    assert!(matches!(
        entry_service.add_entry_with_id(command("cn=A,dc=dev", &[]), 9),
        Err(LdapError::UnknownObjectClass(_))
    ));
    assert!(matches!(
        entry_service.add_entry_with_id(
            command("cn=A,dc=dev", &[("objectClass", &["person"]), ("height", &["2"])]),
            9
        ),
        Err(LdapError::UnknownAttribute(_))
    ));
    match entry_service.add_entry_with_id(
        command("cn=A,dc=dev", &[("objectClass", &["person"]), ("dc", &["x"])]),
        9,
    ) {
        Err(LdapError::InvalidEntry { id, msg }) => {
            assert_eq!(id, "No ID");
            assert_eq!(msg, "Entry contains an attr not in the schema: dc-oid");
        }
        other => panic!("expected InvalidEntry, got {:?}", other),
    }
    assert_eq!(entry_service.entries().len(), 2);
}

#[test]
fn builder_collects_children_classes_and_values_once() {
    let entry: Entry<String> = EntryBuilder::new()
        .set_id("e".to_string())
        .set_parent("p".to_string())
        .add_child("c1".to_string())
        .add_child("c2".to_string())
        .add_child("c1".to_string())
        .add_object_class(Oid::new("a"))
        .add_object_class(Oid::new("a"))
        .add_attr_val(Oid::new("cn-oid"), "x")
        .add_attr_val(Oid::new("cn-oid"), "x")
        .add_attr_vals(Oid::new("cn-oid"), &set_of(&["y", "x", "z"]))
        .add_attr_vals(Oid::new("sn-oid"), &set_of(&[]))
        .build();
    assert_eq!(entry.get_children().len(), 2);
    assert_eq!(entry.get_parent(), "p");
    assert_eq!(entry.get_object_classes().len(), 1);
    assert_eq!(entry.get_attributes().len(), 2);
    let cn = entry.get_attribute(&Oid::new("cn-oid")).unwrap();
    assert_eq!(cn.len(), 3);
    assert_eq!(cn.get(2), "z");
    assert_eq!(entry.get_attribute(&Oid::new("sn-oid")).unwrap().len(), 0);
    let mut copy = entry.clone();
    copy.set_id(&"f".to_string());
    copy.add_child("c3".to_string());
    assert_eq!(copy.get_id_str(), "f");
    assert_eq!(entry.get_id_str(), "e");
    assert_eq!(copy.get_children().len(), 3);
}

#[test]
fn the_starting_directory() {
    let repo = populated_entry_repo();
    assert_eq!(repo.len(), 2);
    let root = repo.get_by_id(&0).unwrap();
    assert!(root.matches_rdn(&rdn("dc-oid", "dev")));
    assert_eq!(root.get_children().len(), 1);
    let child = repo.get_by_id(&root.get_children()[0]).unwrap();
    assert!(child.matches_rdn(&rdn("dc-oid", "georgiboy")));
}
