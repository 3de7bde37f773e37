use ldap_directory::db::InMemSchemaDb;
use ldap_directory::entity::dn::{Rdn, DN};
use ldap_directory::entity::schema::{AttributeBuilder, Oid};
use ldap_directory::errors::LdapError;
use ldap_directory::service::schema::{SchemaService, SchemaServiceImpl};

fn pair(oid: &str, value: &str) -> (Oid, String) {
    (Oid::new(oid), value.to_string())
}

fn naming_schema() -> InMemSchemaDb {
    InMemSchemaDb::new(
        vec![],
        vec![
            AttributeBuilder::new()
                .set_numericoid(Oid::new("cn-oid"))
                .add_name("cn")
                .add_name("commonName")
                .build(),
            AttributeBuilder::new().set_numericoid(Oid::new("ou-oid")).add_name("ou").build(),
            AttributeBuilder::new().set_numericoid(Oid::new("dc-oid")).add_name("dc").build(),
        ],
    )
}

#[test]
fn test_display_dn() {
    let dn = DN::new(vec![
        Rdn::from(("cn-oid", "Test")),
        Rdn::from(vec![("ou-oid", "Test"), ("cn-oid", "Test OU")]),
        Rdn::from(("dc-oid", "dev")),
    ]);

    let expected = "cn-oid=Test,ou-oid=Test+cn-oid=Test OU,dc-oid=dev";
    assert_eq!(dn.to_string(), expected)
}

#[test]
fn test_create_normalised_dn() {
    let schema = naming_schema();
    let service = SchemaServiceImpl::new(&schema);
    let dn = service
        .create_normalised_dn("cn=Test,ou=Test+commonName=Test OU,dc=dev")
        .unwrap();
    assert_eq!(dn.len(), 3);
    assert_eq!(dn.to_string(), "cn-oid=Test,ou-oid=Test+cn-oid=Test OU,dc-oid=dev");
}

#[test]
fn normalised_dn_keeps_equals_signs_in_values() {
    let schema = naming_schema();
    let service = SchemaServiceImpl::new(&schema);
    let dn = service.create_normalised_dn("cn=a=b").unwrap();
    assert_eq!(dn.first().unwrap().value_at(0), "a=b");
    assert_eq!(dn.first().unwrap().oid_at(0).as_str(), "cn-oid");
}

#[test]
fn normalised_dn_rejects_a_piece_without_equals() {
    let schema = naming_schema();
    let service = SchemaServiceImpl::new(&schema);
    match service.create_normalised_dn("cn=Test,oops") {
        Err(LdapError::InvalidDN { dn, msg }) => {
            assert_eq!(dn, "cn=Test,oops");
            assert_eq!(msg, "oops");
        }
        other => panic!("expected InvalidDN, got {:?}", other),
    }
}

#[test]
fn normalised_dn_rejects_an_unknown_name() {
    let schema = naming_schema();
    let service = SchemaServiceImpl::new(&schema);
    match service.create_normalised_dn("uid=7+cn=x,dc=dev") {
        Err(LdapError::InvalidDN { dn, msg }) => {
            assert_eq!(dn, "uid=7+cn=x,dc=dev");
            assert_eq!(msg, "Could not find attribute uid for uid=7+cn=x");
        }
        other => panic!("expected InvalidDN, got {:?}", other),
    }
}

#[test]
fn empty_text_is_no_dn() {
    let schema = naming_schema();
    let service = SchemaServiceImpl::new(&schema);
    assert!(matches!(
        service.create_normalised_dn(""),
        Err(LdapError::InvalidDN { .. })
    ));
}

#[test]
fn rendered_dn_reads_back_under_a_schema_that_names_the_oids() {
    let schema = InMemSchemaDb::new(
        vec![],
        vec![
            AttributeBuilder::new().set_numericoid(Oid::new("cn-oid")).add_name("cn-oid").build(),
            AttributeBuilder::new().set_numericoid(Oid::new("dc-oid")).add_name("dc-oid").build(),
        ],
    );
    let service = SchemaServiceImpl::new(&schema);
    let dn = DN::new(vec![
        Rdn::from_pairs(vec![pair("cn-oid", "A"), pair("dc-oid", "B")]),
        Rdn::single(Oid::new("dc-oid"), "dev".to_string()),
    ]);
    let text = dn.to_string();
    let back = service.create_normalised_dn(&text).unwrap();
    assert_eq!(back.to_string(), text);
    assert_eq!(back.len(), 2);
    assert_eq!(back.first().unwrap().len(), 2);
}

#[test]
fn parent_dn_drops_the_most_specific_rdn() {
    let dn = DN::new(vec![
        Rdn::single(Oid::new("cn-oid"), "x".to_string()),
        Rdn::single(Oid::new("dc-oid"), "dev".to_string()),
    ]);
    assert_eq!(dn.parent_dn().to_string(), "dc-oid=dev");
    assert_eq!(dn.parent_dn().parent_dn().len(), 0);
    assert_eq!(DN::default().parent_dn().len(), 0);
    assert!(DN::default().first().is_none());
    assert_eq!(DN::default().to_string(), "");
}

#[test]
fn append_adds_the_least_specific_rdn() {
    let mut dn = DN::default();
    dn.append(Rdn::single(Oid::new("cn-oid"), "x".to_string()));
    dn.append(Rdn::single(Oid::new("dc-oid"), "dev".to_string()));
    assert_eq!(dn.to_string(), "cn-oid=x,dc-oid=dev");
    assert_eq!(dn.as_slice().len(), 2);
    assert_eq!(dn.as_slice()[1].get()[0].1, "dev");
}

#[test]
fn an_rdn_is_read_from_its_text() {
    let rdn = Rdn::try_from("ou-oid=Test+cn-oid=Test OU").unwrap();
    assert_eq!(rdn.len(), 2);
    assert_eq!(rdn.oid_at(1).as_str(), "cn-oid");
    assert_eq!(rdn.value_at(1), "Test OU");
    assert_eq!(rdn.to_string(), "ou-oid=Test+cn-oid=Test OU");
    assert_eq!(rdn.clone().to_string(), rdn.to_string());
    match Rdn::try_from("a=b+c") {
        Err(LdapError::InvalidDN { dn, .. }) => assert_eq!(dn, "a=b+c"),
        other => panic!("expected InvalidDN, got {:?}", other),
    }
    assert_eq!(Rdn::single(Oid::from("a"), "b".to_string()).to_string(), "a=b");
    assert_eq!(Rdn::from_pairs(vec![pair("a", "b"), pair("c", "d")]).to_string(), "a=b+c=d");
    assert_eq!(Rdn::default().to_string(), "");
}
