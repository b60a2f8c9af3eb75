use access_method_codec::ip::{format_ip, parse_ip, IpAddr};
use access_method_codec::method::{
    decode_access_method, encode_access_method, AccessMethod, CustomAccessMethod, Socks5,
    Socks5Local, Socks5Remote, Shadowsocks, WireAccessMethod, WireMethodKind, WireSocks5Local,
};

#[test]
fn socks5_local_concrete_wire_decodes_and_reencodes_identically() {
    let wire = WireAccessMethod {
        access_method: Some(WireMethodKind::Socks5Local(WireSocks5Local {
            ip: String::from("127.0.0.1"),
            port: 1080,
            local_port: 9090,
        })),
    };
    let method = decode_access_method(&wire).unwrap();
    let expected = AccessMethod::Custom(CustomAccessMethod::Socks5(Socks5::Local(Socks5Local {
        peer_ip: IpAddr::V4 {
            a: 127,
            b: 0,
            c: 0,
            d: 1,
        },
        peer_port: 1080,
        local_port: 9090,
    })));
    assert_eq!(method, expected);
    let reencoded = encode_access_method(&method);
    assert_eq!(reencoded, wire);
}

#[test]
fn from_args_parses_the_peer_address() {
    let local = Socks5Local::from_args("127.0.0.1", 1080, 9090).unwrap();
    assert_eq!(
        local.peer_ip,
        IpAddr::V4 {
            a: 127,
            b: 0,
            c: 0,
            d: 1
        }
    );
    assert_eq!(local.peer_port, 1080);
    assert_eq!(local.local_port, 9090);
    assert!(Socks5Local::from_args("localhost", 1080, 9090).is_none());
    assert!(Socks5Remote::from_args("10.0.0.300", 1080).is_none());
    let ss = Shadowsocks::from_args(
        "192.0.2.9",
        8388,
        String::from("aes-256-gcm"),
        String::from("pw"),
    )
    .unwrap();
    assert_eq!(ss.cipher, "aes-256-gcm");
    assert_eq!(ss.password, "pw");
}

#[test]
fn v4_literal_formatting_is_canonical() {
    let ip = IpAddr::V4 {
        a: 0,
        b: 10,
        c: 100,
        d: 255,
    };
    let text = format_ip(&ip);
    assert_eq!(text, "0.10.100.255");
    assert_eq!(parse_ip(text.as_str()), Some(ip));
}

#[test]
fn v6_literal_formatting_is_canonical() {
    let ip = IpAddr::V6 {
        g0: 0x2001,
        g1: 0xdb8,
        g2: 0,
        g3: 0,
        g4: 0,
        g5: 0xffff,
        g6: 0x102,
        g7: 0x304,
    };
    let text = format_ip(&ip);
    assert_eq!(text, "2001:db8:0:0:0:ffff:102:304");
    assert_eq!(parse_ip(text.as_str()), Some(ip));
}

#[test]
fn v6_zero_compression_is_accepted() {
    assert_eq!(
        parse_ip("::"),
        Some(IpAddr::V6 {
            g0: 0,
            g1: 0,
            g2: 0,
            g3: 0,
            g4: 0,
            g5: 0,
            g6: 0,
            g7: 0,
        })
    );
    assert_eq!(
        parse_ip("::1"),
        Some(IpAddr::V6 {
            g0: 0,
            g1: 0,
            g2: 0,
            g3: 0,
            g4: 0,
            g5: 0,
            g6: 0,
            g7: 1,
        })
    );
    assert_eq!(
        parse_ip("2001:db8::1"),
        Some(IpAddr::V6 {
            g0: 0x2001,
            g1: 0xdb8,
            g2: 0,
            g3: 0,
            g4: 0,
            g5: 0,
            g6: 0,
            g7: 1,
        })
    );
    assert_eq!(
        parse_ip("1:2:3:4:5:6:7::"),
        Some(IpAddr::V6 {
            g0: 1,
            g1: 2,
            g2: 3,
            g3: 4,
            g4: 5,
            g5: 6,
            g6: 7,
            g7: 0,
        })
    );
}

#[test]
fn v6_embedded_v4_tail_is_accepted() {
    assert_eq!(
        parse_ip("::ffff:127.0.0.1"),
        Some(IpAddr::V6 {
            g0: 0,
            g1: 0,
            g2: 0,
            g3: 0,
            g4: 0,
            g5: 0xffff,
            g6: 0x7f00,
            g7: 0x0001,
        })
    );
    assert_eq!(
        parse_ip("1:2:3:4:5:6:1.2.3.4"),
        Some(IpAddr::V6 {
            g0: 1,
            g1: 2,
            g2: 3,
            g3: 4,
            g4: 5,
            g5: 6,
            g6: 0x0102,
            g7: 0x0304,
        })
    );
}

#[test]
fn v6_groups_accept_leading_zeros_and_either_case() {
    let parsed = parse_ip("2001:0db8:0000:0000:0000:FFFF:0102:0304");
    assert_eq!(
        parsed,
        Some(IpAddr::V6 {
            g0: 0x2001,
            g1: 0xdb8,
            g2: 0,
            g3: 0,
            g4: 0,
            g5: 0xffff,
            g6: 0x102,
            g7: 0x304,
        })
    );
}
