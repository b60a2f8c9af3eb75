use access_method_codec::collection::{decode_settings, WireApiAccessMethodSettings};
use access_method_codec::error::DecodeError;
use access_method_codec::id::{decode_uuid, AccessMethodId, WireUuid};
use access_method_codec::method::{
    decode_access_method, WireAccessMethod, WireMethodKind, WireSocks5Local, WireSocks5Remote,
};
use access_method_codec::setting::{decode_setting, WireApiAccessMethod};
use access_method_codec::update::{decode_update, WireApiAccessMethodUpdate};

fn wire_remote(ip: &str, port: u32) -> WireAccessMethod {
    WireAccessMethod {
        access_method: Some(WireMethodKind::Socks5Remote(WireSocks5Remote {
            ip: String::from(ip),
            port,
        })),
    }
}

fn good_wire_setting(name: &str) -> WireApiAccessMethod {
    WireApiAccessMethod {
        id: Some(WireUuid {
            value: String::from("123e4567-e89b-12d3-a456-426614174000"),
        }),
        name: String::from(name),
        enabled: true,
        access_method: Some(wire_remote("10.0.0.1", 1080)),
    }
}

fn bad_wire_setting() -> WireApiAccessMethod {
    WireApiAccessMethod {
        id: Some(WireUuid {
            value: String::from("not-a-uuid"),
        }),
        name: String::from("broken"),
        enabled: false,
        access_method: Some(wire_remote("10.0.0.1", 1080)),
    }
}

#[test]
fn port_65535_decodes_and_65536_is_rejected() {
    let ok = decode_access_method(&wire_remote("10.0.0.1", 65535));
    assert!(ok.is_ok());
    let too_big = decode_access_method(&wire_remote("10.0.0.1", 65536));
    assert!(matches!(too_big, Err(DecodeError::InvalidArgument(_))));
}

#[test]
fn local_port_65536_is_rejected() {
    let wire = WireAccessMethod {
        access_method: Some(WireMethodKind::Socks5Local(WireSocks5Local {
            ip: String::from("127.0.0.1"),
            port: 1080,
            local_port: 65536,
        })),
    };
    let r = decode_access_method(&wire);
    assert!(matches!(r, Err(DecodeError::InvalidArgument(_))));
}

#[test]
fn missing_oneof_is_rejected() {
    let wire = WireAccessMethod {
        access_method: None,
    };
    let r = decode_access_method(&wire);
    assert!(matches!(r, Err(DecodeError::InvalidArgument(_))));
}

#[test]
fn unparseable_addresses_are_rejected() {
    let bad = [
        "256.0.0.1",
        "01.2.3.4",
        "1.2.3",
        "1.2.3.4.5",
        "1.2.3.4 ",
        "",
        ":::",
        "1::2::3",
        ":1:2:3:4:5:6:7",
        "1:2:3:4:5:6:7:8::",
        "1::2:3:4:5:6:7:8",
        "1.2.3.4::",
        "::ffff:1.2.3",
        "::12345",
        "g:0:0:0:0:0:0:1",
        "1:2:3:4:5:6:7",
    ];
    for ip in bad {
        let r = decode_access_method(&wire_remote(ip, 1080));
        assert!(
            matches!(r, Err(DecodeError::InvalidArgument(_))),
            "address {:?} should have been rejected",
            ip
        );
    }
}

#[test]
fn parseable_addresses_are_accepted() {
    let good = [
        "0.0.0.0",
        "255.255.255.255",
        "10.0.0.1",
        "0:0:0:0:0:0:0:1",
        "2001:DB8:0:0:0:FFFF:102:304",
        "1:2:3:4:5:6:7:8",
    ];
    for ip in good {
        assert!(
            decode_access_method(&wire_remote(ip, 1)).is_ok(),
            "address {:?} should have been accepted",
            ip
        );
    }
}

#[test]
fn malformed_identifier_texts_are_rejected() {
    let bad = [
        "",
        "not-a-uuid",
        "123e4567e89b12d3a456426614174000",
        "123e4567-e89b-12d3-a456-42661417400",
        "123e4567-e89b-12d3-a456-4266141740000",
        "123e4567-e89b-12d3-a45x-426614174000",
        "123e4567-e89b-12d3-a456_426614174000",
        "123e4567-e89b-12d3--a456-26614174000",
    ];
    for text in bad {
        assert!(
            AccessMethodId::from_string(text).is_none(),
            "identifier {:?} should have been rejected",
            text
        );
        let r = decode_uuid(&WireUuid {
            value: String::from(text),
        });
        assert!(matches!(r, Err(DecodeError::InvalidArgument(_))));
    }
}

#[test]
fn setting_missing_id_is_rejected() {
    let mut wire = good_wire_setting("no id");
    wire.id = None;
    let r = decode_setting(&wire);
    assert!(matches!(r, Err(DecodeError::InvalidArgument(_))));
}

#[test]
fn setting_missing_method_is_rejected() {
    let mut wire = good_wire_setting("no method");
    wire.access_method = None;
    let r = decode_setting(&wire);
    assert!(matches!(r, Err(DecodeError::InvalidArgument(_))));
}

#[test]
fn collection_fails_fast_on_one_bad_element() {
    for bad_at in 0..3usize {
        let mut elements = vec![
            good_wire_setting("a"),
            good_wire_setting("b"),
            good_wire_setting("c"),
        ];
        elements[bad_at] = bad_wire_setting();
        let wire = WireApiAccessMethodSettings {
            api_access_methods: elements,
        };
        let r = decode_settings(&wire);
        assert!(
            matches!(r, Err(DecodeError::InvalidArgument(_))),
            "a bad element at position {} should abort the decode",
            bad_at
        );
    }
}

#[test]
fn update_missing_id_is_rejected() {
    let wire = WireApiAccessMethodUpdate {
        id: None,
        access_method: Some(good_wire_setting("present")),
    };
    let r = decode_update(&wire);
    assert!(matches!(r, Err(DecodeError::InvalidArgument(_))));
}

#[test]
fn update_missing_method_is_rejected() {
    let wire = WireApiAccessMethodUpdate {
        id: Some(WireUuid {
            value: String::from("123e4567-e89b-12d3-a456-426614174000"),
        }),
        access_method: None,
    };
    let r = decode_update(&wire);
    assert!(matches!(r, Err(DecodeError::InvalidArgument(_))));
}
