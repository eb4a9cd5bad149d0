use mud_engine::engine::Engine;
use mud_engine::protocol::{Address, Request, RequestType, Response, ResponseCode};

fn addr(n: u8) -> Address {
    Address { ip: [n; 16], port: n as u16 }
}

fn connect_req(name: &[u8], a: Address) -> Request {
    Request { req_type: RequestType::Connect, contents: name.to_vec(), client_id: 0, addr: a }
}

fn disconnect_req(client_id: u128, a: Address) -> Request {
    Request { req_type: RequestType::Disconnect, contents: Vec::new(), client_id, addr: a }
}

fn other_req(a: Address) -> Request {
    Request { req_type: RequestType::Other, contents: Vec::new(), client_id: 0, addr: a }
}

fn decode_id(r: &Response) -> u128 {
    let bytes: [u8; 16] = r.object_data.as_slice().try_into().expect("16-byte payload");
    u128::from_be_bytes(bytes)
}

#[test]
fn registry_size_never_exceeds_capacity() {
    let mut e = Engine::new("tok".to_string(), false);
    for i in 0..20u8 {
        e.process_request(&connect_req(b"guest", addr(i)));
        assert!(e.client_count() <= 8);
    }
    assert_eq!(e.client_count(), 8);
    let rs = e.get_responses();
    assert_eq!(rs.len(), 20);
    for (i, r) in rs.iter().enumerate() {
        if i < 8 {
            assert_eq!(r.code, ResponseCode::ConnectAccept);
        } else {
            assert_eq!(r.code, ResponseCode::ConnectReject);
            assert_eq!(r.textual_data, "Maximum connection count reached.");
        }
    }
}

#[test]
fn invalid_name_is_rejected_without_state_change() {
    let mut e = Engine::new("tok".to_string(), false);
    let bad = [0xffu8, 0xfe, 0x80];
    e.process_request(&connect_req(&bad, addr(1)));
    assert_eq!(e.client_count(), 0);
    let rs = e.get_responses();
    assert_eq!(rs.len(), 1);
    assert_eq!(rs[0].code, ResponseCode::ConnectReject);
    assert_eq!(rs[0].textual_data, "Invalid name.");
    assert_eq!(rs[0].addr, addr(1));
    assert!(rs[0].object_data.is_empty());
}

#[test]
fn valid_connect_accepts_and_grows_registry_by_one() {
    let mut e = Engine::new("tok".to_string(), false);
    e.process_request(&connect_req(b"Alice", addr(3)));
    assert_eq!(e.client_count(), 1);
    let rs = e.get_responses();
    assert_eq!(rs.len(), 1);
    assert_eq!(rs[0].code, ResponseCode::ConnectAccept);
    assert_eq!(rs[0].textual_data, "Connection successful. Welcome, Alice.");
    assert_eq!(rs[0].addr, addr(3));
    assert_eq!(rs[0].object_data.len(), 16);
}

#[test]
fn assigned_identifiers_are_not_previously_seen() {
    let mut e = Engine::new("tok".to_string(), false);
    let mut seen: Vec<u128> = Vec::new();
    for i in 0..8u8 {
        e.process_request(&connect_req(b"guest", addr(i)));
        assert_eq!(e.client_count(), (i + 1) as usize);
    }
    for r in e.get_responses() {
        let id = decode_id(&r);
        assert!(!seen.contains(&id));
        seen.push(id);
    }
    assert_eq!(seen.len(), 8);
}

#[test]
fn accept_payload_decodes_to_registered_identifier() {
    let mut e = Engine::new("tok".to_string(), false);
    let chosen: u128 = 0x0102030405060708090a0b0c0d0e0f10;
    e.process_request_with_id(&connect_req(b"Bob", addr(2)), chosen);
    let rs = e.get_responses();
    assert_eq!(decode_id(&rs[0]), chosen);
    // The decoded identifier references the client: disconnecting by it works.
    e.process_request(&disconnect_req(chosen, addr(2)));
    assert_eq!(e.client_count(), 0);
}

#[test]
fn disconnect_removes_and_acknowledges_once() {
    let mut e = Engine::new("tok".to_string(), false);
    e.process_request_with_id(&connect_req(b"Carol", addr(4)), 77);
    assert_eq!(e.client_count(), 1);

    e.process_request(&disconnect_req(77, addr(4)));
    assert_eq!(e.client_count(), 0);
    let rs = e.get_responses();
    assert_eq!(rs.len(), 2);
    assert_eq!(rs[1].code, ResponseCode::DisconnectAck);
    assert_eq!(rs[1].textual_data, "Disconnected.");
    assert_eq!(rs[1].addr, addr(4));

    // Repeating the same Disconnect immediately after: no response, no change.
    e.process_request(&disconnect_req(77, addr(4)));
    assert_eq!(e.client_count(), 0);
    assert_eq!(e.get_responses().len(), 2);
}

#[test]
fn disconnect_of_unknown_identifier_is_silently_ignored() {
    let mut e = Engine::new("tok".to_string(), false);
    e.process_request(&disconnect_req(123456, addr(9)));
    assert_eq!(e.client_count(), 0);
    assert!(e.get_responses().is_empty());
}

#[test]
fn other_request_echoes_session_token() {
    let mut e = Engine::new("secret-session".to_string(), false);
    e.process_request(&other_req(addr(5)));
    let rs = e.get_responses();
    assert_eq!(rs.len(), 1);
    assert_eq!(rs[0].code, ResponseCode::TokenAcknowledge);
    assert_eq!(rs[0].textual_data, "secret-session");
    assert_eq!(rs[0].addr, addr(5));
    assert!(rs[0].object_data.is_empty());
    assert!(rs[0].numerical_data.is_empty());
}

#[test]
fn other_request_echoes_token_regardless_of_registry_state() {
    let mut e = Engine::new("T9".to_string(), false);
    for i in 0..8u8 {
        e.process_request(&connect_req(b"guest", addr(i)));
    }
    e.process_request(&other_req(addr(42)));
    let rs = e.get_responses();
    assert_eq!(rs.last().unwrap().code, ResponseCode::TokenAcknowledge);
    assert_eq!(rs.last().unwrap().textual_data, "T9");
    assert_eq!(e.client_count(), 8);
}

#[test]
fn tick_clears_the_outgoing_buffer() {
    let mut e = Engine::new("tok".to_string(), false);
    e.process_request(&other_req(addr(1)));
    e.process_request(&other_req(addr(2)));
    assert_eq!(e.get_responses().len(), 2);
    e.perform_tick();
    assert!(e.get_responses().is_empty());
    // The registry and configuration survive the tick.
    assert_eq!(e.client_count(), 0);
    assert_eq!(e.delay_duration_ms(), 100);
}

#[test]
fn get_responses_is_a_snapshot_without_clearing() {
    let mut e = Engine::new("tok".to_string(), false);
    e.process_request(&other_req(addr(1)));
    assert_eq!(e.get_responses().len(), 1);
    assert_eq!(e.get_responses().len(), 1);
}

#[test]
fn default_tick_rate_gives_100ms_delay() {
    let e = Engine::new("tok".to_string(), false);
    assert_eq!(e.delay_duration_ms(), 100);
    assert!(!e.debug_mode());
    let d = Engine::new("tok".to_string(), true);
    assert!(d.debug_mode());
}

#[test]
fn full_session_scenario() {
    let mut e = Engine::new("T1".to_string(), true);
    for i in 0..8u8 {
        e.process_request(&connect_req(format!("user{}", i).as_bytes(), addr(i)));
    }
    let rs = e.get_responses();
    assert_eq!(rs.len(), 8);
    assert!(rs.iter().all(|r| r.code == ResponseCode::ConnectAccept));
    assert_eq!(e.client_count(), 8);

    // A ninth Connect is rejected outright.
    e.process_request(&connect_req(b"user8", addr(8)));
    let rs = e.get_responses();
    assert_eq!(rs.len(), 9);
    assert_eq!(rs[8].code, ResponseCode::ConnectReject);
    assert_eq!(rs[8].textual_data, "Maximum connection count reached.");
    assert_eq!(e.client_count(), 8);

    // Disconnect one existing client by its assigned identifier.
    let id0 = decode_id(&rs[0]);
    e.process_request(&disconnect_req(id0, addr(0)));
    let rs = e.get_responses();
    assert_eq!(rs.len(), 10);
    assert_eq!(rs[9].code, ResponseCode::DisconnectAck);
    assert_eq!(e.client_count(), 7);

    // The ninth Connect is now accepted.
    e.process_request(&connect_req(b"user8", addr(8)));
    let rs = e.get_responses();
    assert_eq!(rs.len(), 11);
    assert_eq!(rs[10].code, ResponseCode::ConnectAccept);
    assert_eq!(rs[10].textual_data, "Connection successful. Welcome, user8.");
    assert_eq!(e.client_count(), 8);
}

#[test]
fn duplicate_identifier_connect_replaces_entry() {
    // A Connect minted onto an identifier that is already registered
    // replaces that entry, as a map keyed by identifier would.
    let mut e = Engine::new("tok".to_string(), false);
    e.process_request_with_id(&connect_req(b"first", addr(1)), 5);
    e.process_request_with_id(&connect_req(b"second", addr(2)), 5);
    assert_eq!(e.client_count(), 1);
    let rs = e.get_responses();
    assert_eq!(rs.len(), 2);
    assert_eq!(rs[1].code, ResponseCode::ConnectAccept);
}

#[test]
fn builders_fill_every_field() {
    let req = other_req(addr(6));
    let token = Engine::create_token_response("tk".to_string(), &req);
    assert_eq!(token.code, ResponseCode::TokenAcknowledge);
    assert_eq!(token.addr, addr(6));
    assert_eq!(token.textual_data, "tk");
    assert!(token.numerical_data.is_empty());
    assert!(token.object_data.is_empty());

    let ok = Engine::create_connection_success_response("hi".to_string(), 258, &req);
    assert_eq!(ok.code, ResponseCode::ConnectAccept);
    assert_eq!(ok.textual_data, "hi");
    let mut expected = vec![0u8; 16];
    expected[14] = 1;
    expected[15] = 2;
    assert_eq!(ok.object_data, expected);

    let dc = Engine::create_dc_acknowledge_response("bye", &req);
    assert_eq!(dc.code, ResponseCode::DisconnectAck);
    assert_eq!(dc.textual_data, "bye");
    assert!(dc.object_data.is_empty());

    let no = Engine::create_connection_reject_response("no", &req);
    assert_eq!(no.code, ResponseCode::ConnectReject);
    assert_eq!(no.textual_data, "no");
    assert!(no.object_data.is_empty());
}
