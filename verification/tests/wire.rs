use bytes::Bytes;
use ldap_directory::bootstrap::{populated_entry_repo, populated_schema_repo};
use ldap_directory::commands::{AddEntryCommand, AddRequest, PartialAttribute};
use ldap_directory::controller::{
    Action, BindRequest, LdapController, LdapControllerImpl, LdapMessage, ProtocolOp,
};
use ldap_directory::db::EntryRepository;
use ldap_directory::errors::{LdapError, LdapResult, ResultCode};
use ldap_directory::framing::{
    ber_frame, ber_frame_length, ber_length_octets, ber_payload_length, FrameError,
};
use ldap_directory::service::entry::EntryServiceImpl;
use ldap_directory::service::schema::SchemaServiceImpl;

fn attr(name: &[u8], vals: &[&[u8]]) -> PartialAttribute {
    PartialAttribute {
        attr_type: Bytes::copy_from_slice(name),
        vals: vals.iter().map(|v| Bytes::copy_from_slice(v)).collect(),
    }
}

fn add_request(entry: &[u8], attributes: Vec<PartialAttribute>) -> AddRequest {
    AddRequest { entry: Bytes::copy_from_slice(entry), attributes }
}

#[test]
fn short_form_length() {
    assert_eq!(ber_length_octets(0x00), 0);
    assert_eq!(ber_length_octets(0x7f), 0);
    assert_eq!(ber_payload_length(0x00, &[]), Ok(0));
    assert_eq!(ber_payload_length(0x7f, &[]), Ok(127));
    assert_eq!(ber_payload_length(0x05, &[]), Ok(5));
}

#[test]
fn long_form_length() {
    assert_eq!(ber_length_octets(0x81), 1);
    assert_eq!(ber_length_octets(0x82), 2);
    assert_eq!(ber_length_octets(0xff), 127);
    assert_eq!(ber_payload_length(0x81, &[0x80]), Ok(128));
    assert_eq!(ber_payload_length(0x82, &[0x01, 0x00]), Ok(256));
    assert_eq!(ber_payload_length(0x82, &[0xff, 0xff]), Ok(65535));
    assert_eq!(ber_payload_length(0x80, &[]), Ok(0));
}

#[test]
fn long_form_of_four_bytes_is_read_exactly() {
    assert_eq!(ber_length_octets(0x84), 4);
    assert_eq!(ber_payload_length(0x84, &[0x00, 0x01, 0x00, 0x00]), Ok(65536));
    assert_eq!(ber_payload_length(0x84, &[0x00, 0x01, 0x00, 0x01]), Ok(65537));

    let mut stream = vec![0x30, 0x84, 0x00, 0x01, 0x00, 0x00];
    stream.extend(std::iter::repeat(0xaa).take(65536));
    let first = stream.len();
    stream.extend_from_slice(&[0x30, 0x03, 0x02, 0x01, 0x07]);
    assert_eq!(ber_frame_length(&stream), Ok(Some(first)));
    assert_eq!(first, 2 + 4 + 65536);
    assert_eq!(ber_frame_length(&stream[first..]), Ok(Some(5)));
}

#[test]
fn malformed_length_prefixes() {
    assert_eq!(ber_payload_length(0x82, &[0x01]), Err(FrameError::LengthOctets));
    assert_eq!(ber_payload_length(0x81, &[0x01, 0x02]), Err(FrameError::LengthOctets));
    let huge = [0xffu8; 9];
    assert_eq!(ber_payload_length(0x89, &huge), Err(FrameError::TooLong));
    let mut padded = vec![0u8; 8];
    padded.push(0x2a);
    assert_eq!(ber_payload_length(0x89, &padded), Ok(42));
}

#[test]
fn a_stream_without_its_whole_prefix() {
    assert_eq!(ber_frame_length(&[]), Ok(None));
    assert_eq!(ber_frame_length(&[0x30]), Ok(None));
    assert_eq!(ber_frame_length(&[0x30, 0x82, 0x01]), Ok(None));
    assert_eq!(ber_frame_length(&[0x30, 0x82, 0x01, 0x02]), Ok(Some(2 + 2 + 258)));
    assert_eq!(ber_frame_length(&[0x30, 0x00]), Ok(Some(2)));
}

#[test]
fn a_frame_is_header_length_bytes_and_payload() {
    assert_eq!(
        ber_frame(&[0x30, 0x81], &[0x03], &[1, 2, 3]),
        vec![0x30, 0x81, 0x03, 1, 2, 3]
    );
    assert_eq!(ber_frame(&[0x30, 0x00], &[], &[]), vec![0x30, 0x00]);
}

#[test]
fn a_command_gathers_recurring_attributes() {
    let req = add_request(
        b"cn=A,dc=dev",
        vec![
            attr(b"cn", &[b"x", b"y"]),
            attr(b"sn", &[b"s"]),
            attr(b"cn", &[b"y", b"z", b"z"]),
        ],
    );
    let cmd = AddEntryCommand::try_from(&req).unwrap();
    assert_eq!(cmd.dn, "cn=A,dc=dev");
    assert_eq!(cmd.attributes.len(), 2);
    assert_eq!(cmd.attributes.key_at(0), "cn");
    let cn = cmd.attributes.get("cn").unwrap();
    assert_eq!(cn.len(), 3);
    assert_eq!(cn.get(0), "x");
    assert_eq!(cn.get(1), "y");
    assert_eq!(cn.get(2), "z");
    assert_eq!(cmd.attributes.get("sn").unwrap().len(), 1);
}

#[test]
fn a_command_decodes_utf8() {
    let req = add_request("cn=Zoë".as_bytes(), vec![attr("größe".as_bytes(), &["1€".as_bytes()])]);
    let cmd = AddEntryCommand::try_from(&req).unwrap();
    assert_eq!(cmd.dn, "cn=Zoë");
    assert!(cmd.attributes.get("größe").unwrap().contains("1€"));
}

#[test]
fn a_command_refuses_bytes_that_are_not_utf8() {
    let bad_dn = add_request(&[0x63, 0xff], vec![]);
    match AddEntryCommand::try_from(&bad_dn) {
        Err(LdapError::InvalidAddRequest { name, msg }) => {
            assert_eq!(name, vec![0x63, 0xff]);
            assert_eq!(msg, "DN entry not UTF-8 encoded");
        }
        other => panic!("expected InvalidAddRequest, got {:?}", other),
    }
    let bad_key = add_request(b"cn=A", vec![attr(b"ok", &[b"v"]), attr(&[0xc0], &[&[0xff]])]);
    match AddEntryCommand::try_from(&bad_key) {
        Err(LdapError::InvalidAddRequest { name, msg }) => {
            assert_eq!(name, b"cn=A".to_vec());
            assert_eq!(msg, "Attribute key not UTF-8");
        }
        other => panic!("expected InvalidAddRequest, got {:?}", other),
    }
    let bad_value = add_request(b"cn=A", vec![attr(b"cn", &[b"fine", &[0xe2, 0x82]])]);
    match AddEntryCommand::try_from(&bad_value) {
        Err(LdapError::InvalidAddRequest { msg, .. }) => {
            assert_eq!(msg, "Attribute value not UTF-8");
        }
        other => panic!("expected InvalidAddRequest, got {:?}", other),
    }
}

#[test]
fn error_messages() {
    let e = LdapError::InvalidAddRequest { name: Bytes::from(vec![1]), msg: "a \"b\"\n".to_string() };
    assert_eq!(e.to_string(), "Invalid Add Request: \"a \\\"b\\\"\\n\"");
    assert_eq!(
        LdapError::UnknownError("x".to_string()).to_string(),
        "An unknown error occured: x"
    );
    assert_eq!(
        LdapError::InvalidDN { dn: "d".to_string(), msg: "m".to_string() }.to_string(),
        "Invalid DN d: m"
    );
    assert_eq!(
        LdapError::EntryAlreadyExists { dn: "d".to_string() }.to_string(),
        "Entry already exists at d"
    );
    assert_eq!(
        LdapError::EntryDoesNotExists { dn: "d".to_string() }.to_string(),
        "Entry does not exist at d"
    );
    assert_eq!(
        LdapError::InvalidEntry { id: "7".to_string(), msg: "m".to_string() }.to_string(),
        "Entry 7 has invalid state: m"
    );
    assert_eq!(LdapError::InvalidSchema("o".to_string()).to_string(), "Schema is invalid: o");
    assert_eq!(
        LdapError::UnknownAttribute("a".to_string()).to_string(),
        "Could not find attribute: a"
    );
    assert_eq!(
        LdapError::UnknownObjectClass("c".to_string()).to_string(),
        "Could not find object class: c"
    );
    assert_eq!(e.clone().to_string(), e.to_string());
}

fn result_of(e: LdapError) -> LdapResult {
    LdapResult::try_from(e).unwrap()
}

#[test]
fn errors_as_results() {
    let r = result_of(LdapError::InvalidAddRequest { name: Bytes::from(vec![9, 8]), msg: "m".to_string() });
    assert_eq!(r.result_code, ResultCode::ProtocolError);
    assert_eq!(r.matched_dn, vec![9, 8]);
    assert_eq!(r.diagnostic_message, b"m".to_vec());

    let r = result_of(LdapError::InvalidDN { dn: "d".to_string(), msg: "m".to_string() });
    assert_eq!(r.result_code, ResultCode::InvalidDnSyntax);
    assert_eq!(r.matched_dn, b"d".to_vec());
    assert_eq!(r.diagnostic_message, b"Invalid DN d: m".to_vec());

    let r = result_of(LdapError::EntryAlreadyExists { dn: "d".to_string() });
    assert_eq!(r.result_code, ResultCode::EntryAlreadyExists);
    assert_eq!(r.diagnostic_message, b"Entry already exists at d".to_vec());

    let r = result_of(LdapError::EntryDoesNotExists { dn: "d".to_string() });
    assert_eq!(r.result_code, ResultCode::NoSuchObject);
    assert_eq!(r.matched_dn, b"d".to_vec());

    let r = result_of(LdapError::UnknownAttribute("a".to_string()));
    assert_eq!(r.result_code, ResultCode::UndefinedAttributeType);
    assert!(r.matched_dn.is_empty());
    assert_eq!(r.diagnostic_message, b"Could not find attribute: a".to_vec());

    let r = result_of(LdapError::UnknownObjectClass("c".to_string()));
    assert_eq!(r.result_code, ResultCode::UndefinedAttributeType);

    let r = result_of(LdapError::InvalidEntry { id: "1".to_string(), msg: "m".to_string() });
    assert_eq!(r.result_code, ResultCode::UnwillingToPerform);
    assert_eq!(r.diagnostic_message, b"Entry 1 has invalid state: m".to_vec());

    assert!(matches!(
        LdapResult::try_from(LdapError::InvalidSchema("o".to_string())),
        Err(LdapError::InvalidSchema(_))
    ));
    assert!(matches!(
        LdapResult::try_from(LdapError::UnknownError("o".to_string())),
        Err(LdapError::UnknownError(_))
    ));
}

fn response_of(action: Action) -> (u32, LdapResult) {
    match action {
        Action::Reply(LdapMessage { message_id, protocol_op: ProtocolOp::AddResponse(res) }) => {
            (message_id, res)
        }
        other => panic!("expected an add response, got {:?}", other),
    }
}

#[test]
fn the_controller_answers_each_kind_of_request() {
    let schema_db = populated_schema_repo();
    let schema_service = SchemaServiceImpl::new(&schema_db);
    let entry_service = EntryServiceImpl::new(&schema_service, populated_entry_repo());
    let mut controller = LdapControllerImpl::new(entry_service);

    let bind = LdapMessage {
        message_id: 1,
        protocol_op: ProtocolOp::BindRequest(BindRequest { name: Bytes::from_static(b"cn=admin") }),
    };
    match controller.handle_message(&bind).unwrap() {
        Action::Reply(LdapMessage { message_id, protocol_op: ProtocolOp::BindResponse(res) }) => {
            assert_eq!(message_id, 1);
            assert_eq!(res.result_code, ResultCode::Success);
            assert_eq!(res.matched_dn, b"cn=admin".to_vec());
            assert_eq!(res.diagnostic_message, b"not checking passwords".to_vec());
        }
        other => panic!("expected a bind response, got {:?}", other),
    }

    let search = LdapMessage { message_id: 2, protocol_op: ProtocolOp::SearchRequest };
    match controller.handle_message(&search).unwrap() {
        Action::Reply(LdapMessage { message_id, protocol_op: ProtocolOp::SearchResDone(res) }) => {
            assert_eq!(message_id, 2);
            assert_eq!(res.result_code, ResultCode::Success);
        }
        other => panic!("expected search done, got {:?}", other),
    }

    let other = LdapMessage { message_id: 3, protocol_op: ProtocolOp::Unsupported };
    match controller.handle_message(&other).unwrap() {
        Action::ReplyResult(res) => {
            assert_eq!(res.result_code, ResultCode::UnwillingToPerform);
            assert!(res.matched_dn.is_empty());
            assert_eq!(res.diagnostic_message, b"Request type not implemented".to_vec());
        }
        other => panic!("expected a bare result, got {:?}", other),
    }

    let unbind = LdapMessage { message_id: 4, protocol_op: ProtocolOp::UnbindRequest };
    assert!(matches!(controller.handle_message(&unbind).unwrap(), Action::Close));
}

#[test]
fn the_controller_adds_entries() {
    let schema_db = populated_schema_repo();
    let schema_service = SchemaServiceImpl::new(&schema_db);
    let entry_service = EntryServiceImpl::new(&schema_service, populated_entry_repo());
    let mut controller = LdapControllerImpl::new(entry_service);

    let good = add_request(b"cn=Alice,dc=dev", vec![attr(b"objectClass", &[b"person"])]);
    let msg = LdapMessage { message_id: 11, protocol_op: ProtocolOp::AddRequest(good) };
    let (id, res) = response_of(controller.handle_message(&msg).unwrap());
    assert_eq!(id, 11);
    assert_eq!(res.result_code, ResultCode::Success);
    assert_eq!(res.matched_dn, b"cn=Alice,dc=dev".to_vec());
    assert_eq!(res.diagnostic_message, b"Created new entry".to_vec());
    assert_eq!(controller.service().entries().len(), 3);

    let (id, res) = response_of(controller.handle_message(&msg).unwrap());
    assert_eq!(id, 11);
    assert_eq!(res.result_code, ResultCode::EntryAlreadyExists);

    let orphan = add_request(b"cn=A,dc=x,dc=dev", vec![attr(b"objectClass", &[b"person"])]);
    let msg = LdapMessage { message_id: 12, protocol_op: ProtocolOp::AddRequest(orphan) };
    let (_, res) = response_of(controller.handle_message(&msg).unwrap());
    assert_eq!(res.result_code, ResultCode::NoSuchObject);
    assert_eq!(res.matched_dn, b"dc-oid=dev".to_vec());

    let bad_dn = add_request(b"Alice", vec![]);
    let msg = LdapMessage { message_id: 13, protocol_op: ProtocolOp::AddRequest(bad_dn) };
    let (_, res) = response_of(controller.handle_message(&msg).unwrap());
    assert_eq!(res.result_code, ResultCode::InvalidDnSyntax);

    let no_class = add_request(b"cn=B,dc=dev", vec![attr(b"objectClass", &[b"robot"])]);
    let msg = LdapMessage { message_id: 14, protocol_op: ProtocolOp::AddRequest(no_class) };
    let (_, res) = response_of(controller.handle_message(&msg).unwrap());
    assert_eq!(res.result_code, ResultCode::UndefinedAttributeType);

    let invalid = add_request(
        b"cn=B,dc=dev",
        vec![attr(b"objectClass", &[b"person"]), attr(b"dc", &[b"x"])],
    );
    assert!(matches!(
        controller.handle_add_request(&invalid).unwrap(),
        ProtocolOp::AddResponse(LdapResult { result_code: ResultCode::UnwillingToPerform, .. })
    ));
    assert_eq!(controller.service().entries().len(), 3);
}

#[test]
fn an_add_request_that_is_not_utf8_is_a_protocol_error() {
    let schema_db = populated_schema_repo();
    let schema_service = SchemaServiceImpl::new(&schema_db);
    let entry_service = EntryServiceImpl::new(&schema_service, populated_entry_repo());
    let mut controller = LdapControllerImpl::new(entry_service);

    let bad = add_request(&[0xff, 0xfe], vec![]);
    let msg = LdapMessage { message_id: 21, protocol_op: ProtocolOp::AddRequest(bad) };
    let (id, res) = response_of(controller.handle_message(&msg).unwrap());
    assert_eq!(id, 21);
    assert_eq!(res.result_code, ResultCode::ProtocolError);
    assert_eq!(res.matched_dn, vec![0xff, 0xfe]);
    assert_eq!(res.diagnostic_message, b"DN entry not UTF-8 encoded".to_vec());

    let next = LdapMessage { message_id: 22, protocol_op: ProtocolOp::SearchRequest };
    assert!(matches!(controller.handle_message(&next).unwrap(), Action::Reply(_)));
    assert!(matches!(
        controller.handle_bind_request(&BindRequest { name: Bytes::new() }),
        ProtocolOp::BindResponse(_)
    ));
    assert!(matches!(controller.handle_search_request(), ProtocolOp::SearchResDone(_)));
}
