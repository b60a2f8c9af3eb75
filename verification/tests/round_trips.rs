use access_method_codec::collection::{decode_settings, encode_settings, Settings};
use access_method_codec::id::AccessMethodId;
use access_method_codec::ip::IpAddr;
use access_method_codec::method::{
    decode_access_method, encode_access_method, AccessMethod, BuiltInAccessMethod,
    CustomAccessMethod, Shadowsocks, Socks5, Socks5Local, Socks5Remote,
};
use access_method_codec::setting::{decode_setting, encode_setting, AccessMethodSetting};
use access_method_codec::update::{decode_update, encode_update, AccessMethodUpdate};

fn sample_id(text: &str) -> AccessMethodId {
    AccessMethodId::from_string(text).expect("identifier text should parse")
}

fn local_method() -> AccessMethod {
    AccessMethod::Custom(CustomAccessMethod::Socks5(Socks5::Local(Socks5Local {
        peer_ip: IpAddr::V4 {
            a: 192,
            b: 168,
            c: 1,
            d: 77,
        },
        peer_port: 1080,
        local_port: 9090,
    })))
}

fn shadowsocks_method() -> AccessMethod {
    AccessMethod::Custom(CustomAccessMethod::Shadowsocks(Shadowsocks {
        peer_ip: IpAddr::V6 {
            g0: 0x2001,
            g1: 0xdb8,
            g2: 0,
            g3: 0,
            g4: 0,
            g5: 0xffff,
            g6: 0x102,
            g7: 0x304,
        },
        peer_port: 8388,
        cipher: String::from("aes-256-gcm"),
        password: String::from("secret"),
    }))
}

#[test]
fn direct_round_trip() {
    let m = AccessMethod::BuiltIn(BuiltInAccessMethod::Direct);
    let wire = encode_access_method(&m);
    assert_eq!(decode_access_method(&wire).unwrap(), m);
}

#[test]
fn bridge_round_trip() {
    let m = AccessMethod::BuiltIn(BuiltInAccessMethod::Bridge);
    let wire = encode_access_method(&m);
    assert_eq!(decode_access_method(&wire).unwrap(), m);
}

#[test]
fn socks5_local_round_trip() {
    let m = local_method();
    let wire = encode_access_method(&m);
    assert_eq!(decode_access_method(&wire).unwrap(), m);
}

#[test]
fn socks5_remote_round_trip() {
    let m = AccessMethod::Custom(CustomAccessMethod::Socks5(Socks5::Remote(Socks5Remote {
        peer_ip: IpAddr::V4 {
            a: 10,
            b: 0,
            c: 0,
            d: 1,
        },
        peer_port: 65535,
    })));
    let wire = encode_access_method(&m);
    assert_eq!(decode_access_method(&wire).unwrap(), m);
}

#[test]
fn shadowsocks_round_trip() {
    let m = shadowsocks_method();
    let wire = encode_access_method(&m);
    assert_eq!(decode_access_method(&wire).unwrap(), m);
}

#[test]
fn setting_round_trip_keeps_name_enabled_id() {
    let setting = AccessMethodSetting::with_id(
        sample_id("123e4567-e89b-12d3-a456-426614174000"),
        String::from("office proxy"),
        true,
        local_method(),
    );
    let wire = encode_setting(&setting);
    let back = decode_setting(&wire).unwrap();
    assert_eq!(back.name, "office proxy");
    assert!(back.enabled);
    assert_eq!(back.id, sample_id("123e4567-e89b-12d3-a456-426614174000"));
    assert_eq!(back, setting);
}

#[test]
fn settings_round_trip_empty() {
    let settings = Settings {
        api_access_methods: Vec::new(),
    };
    let wire = encode_settings(&settings);
    let back = decode_settings(&wire).unwrap();
    assert_eq!(back, settings);
    assert!(back.api_access_methods.is_empty());
}

#[test]
fn settings_round_trip_preserves_order() {
    let first = AccessMethodSetting::with_id(
        sample_id("00000000-0000-0000-0000-000000000001"),
        String::from("first"),
        true,
        AccessMethod::BuiltIn(BuiltInAccessMethod::Direct),
    );
    let second = AccessMethodSetting::with_id(
        sample_id("00000000-0000-0000-0000-000000000002"),
        String::from("second"),
        false,
        shadowsocks_method(),
    );
    let third = AccessMethodSetting::with_id(
        sample_id("00000000-0000-0000-0000-000000000003"),
        String::from("third"),
        true,
        local_method(),
    );
    let settings = Settings {
        api_access_methods: vec![first, second, third],
    };
    let wire = encode_settings(&settings);
    let back = decode_settings(&wire).unwrap();
    assert_eq!(back, settings);
    assert_eq!(back.api_access_methods[0].name, "first");
    assert_eq!(back.api_access_methods[1].name, "second");
    assert_eq!(back.api_access_methods[2].name, "third");
}

#[test]
fn update_round_trip() {
    let update = AccessMethodUpdate {
        id: sample_id("123e4567-e89b-12d3-a456-426614174000"),
        access_method: AccessMethodSetting::with_id(
            sample_id("00000000-0000-4000-8000-00000000000f"),
            String::from("replacement"),
            false,
            shadowsocks_method(),
        ),
    };
    let wire = encode_update(&update);
    assert_eq!(decode_update(&wire).unwrap(), update);
}

#[test]
fn identifier_round_trip() {
    let texts = [
        "00000000-0000-0000-0000-000000000000",
        "123e4567-e89b-12d3-a456-426614174000",
        "ffffffff-ffff-ffff-ffff-ffffffffffff",
    ];
    for text in texts {
        let id = sample_id(text);
        let rendered = id.to_text();
        assert_eq!(rendered, *text);
        assert_eq!(AccessMethodId::from_string(rendered.as_str()).unwrap(), id);
    }
}

#[test]
fn identifier_uppercase_reads_as_lowercase() {
    let id = sample_id("123E4567-E89B-12D3-A456-426614174ABC");
    assert_eq!(id.to_text(), "123e4567-e89b-12d3-a456-426614174abc");
}

#[test]
fn identifier_from_bytes_round_trip() {
    let bytes: Vec<u8> = (0u8..16u8).collect();
    let id = AccessMethodId::from_bytes(bytes).expect("sixteen bytes should be accepted");
    assert_eq!(id.to_text(), "00010203-0405-0607-0809-0a0b0c0d0e0f");
    assert!(AccessMethodId::from_bytes(vec![0u8; 15]).is_none());
}
