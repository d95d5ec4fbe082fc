use rstun::addr::{
    localhost, socket_addr_with_unspecified_ip_port, IpAddr, Ipv4Addr, Ipv6Addr, SocketAddr,
    SocketAddrV6,
};
use rstun::addr_parse::parse_socket_addr;

fn parse(text: &str) -> Option<SocketAddr> {
    let chars: Vec<char> = text.chars().collect();
    parse_socket_addr(&chars)
}

fn v4(a: u8, b: u8, c: u8, d: u8, port: u16) -> SocketAddr {
    SocketAddr::new(IpAddr::V4(Ipv4Addr(a, b, c, d)), port)
}

fn v6(s: [u16; 8], scope_id: u32, port: u16) -> SocketAddr {
    SocketAddr::V6(SocketAddrV6 {
        ip: Ipv6Addr(s[0], s[1], s[2], s[3], s[4], s[5], s[6], s[7]),
        port,
        flowinfo: 0,
        scope_id,
    })
}

#[test]
fn ipv4_addresses_are_read() {
    assert_eq!(parse("127.0.0.1:80"), Some(v4(127, 0, 0, 1, 80)));
    assert_eq!(parse("0.0.0.0:0"), Some(v4(0, 0, 0, 0, 0)));
    assert_eq!(
        parse("255.255.255.255:65535"),
        Some(v4(255, 255, 255, 255, 65535))
    );
    assert_eq!(parse("1.2.3.4:007"), Some(v4(1, 2, 3, 4, 7)));
}

#[test]
fn ipv6_addresses_are_read() {
    let cases = [
        ("[::]:0", v6([0; 8], 0, 0)),
        ("[::1]:8080", v6([0, 0, 0, 0, 0, 0, 0, 1], 0, 8080)),
        (
            "[2001:db8::1]:443",
            v6([0x2001, 0xdb8, 0, 0, 0, 0, 0, 1], 0, 443),
        ),
        (
            "[2001:DB8:0:0:0:0:0:1]:443",
            v6([0x2001, 0xdb8, 0, 0, 0, 0, 0, 1], 0, 443),
        ),
        ("[1:2:3:4:5:6:7:8]:1", v6([1, 2, 3, 4, 5, 6, 7, 8], 0, 1)),
        (
            "[::ffff:192.0.2.1]:53",
            v6([0, 0, 0, 0, 0, 0xffff, 0xc000, 0x201], 0, 53),
        ),
        (
            "[1:2:3:4:5:6:1.2.3.4]:1",
            v6([1, 2, 3, 4, 5, 6, 0x102, 0x304], 0, 1),
        ),
        (
            "[fe80::1%3]:22",
            v6([0xfe80, 0, 0, 0, 0, 0, 0, 1], 3, 22),
        ),
        ("[1::]:5", v6([1, 0, 0, 0, 0, 0, 0, 0], 0, 5)),
        ("[1:2:3:4:5:6:7::]:5", v6([1, 2, 3, 4, 5, 6, 7, 0], 0, 5)),
        ("[::2:3:4:5:6:7:8]:5", v6([0, 2, 3, 4, 5, 6, 7, 8], 0, 5)),
    ];
    for (text, addr) in cases {
        assert_eq!(parse(text), Some(addr), "{text}");
    }
}

#[test]
fn other_texts_are_no_addresses() {
    let texts = [
        "",
        ":80",
        "80",
        "localhost:80",
        "1.2.3.4:65536",
        "1.2.3.4:",
        "1.2.3.4",
        "1.2.3:80",
        "01.2.3.4:80",
        "256.2.3.4:80",
        "1.2.3.4:80 ",
        " 1.2.3.4:80",
        "1.2.3.4:+80",
        "[1:2:3:4:5:6:7:8:9]:1",
        "[1:2:3:4:5:6:7]:1",
        "[1::2::3]:1",
        "[12345::]:1",
        "[1:2:3:4:5:6:7:1.2.3.4]:1",
        "[1:2:3:4:5:6:7::8]:5",
        "[fe80::1%4294967296]:22",
        "[fe80::1%]:22",
        "[::1]",
        "::1:80",
    ];
    for text in texts {
        assert_eq!(parse(text), None, "{text}");
    }
}

#[test]
fn addresses_are_written_and_read_back() {
    let cases = [
        (v4(10, 200, 30, 4, 65535), "10.200.30.4:65535"),
        (v6([0; 8], 0, 0), "[::]:0"),
        (v6([0, 0, 0, 0, 0, 0, 0, 1], 0, 8080), "[::1]:8080"),
        (v6([1, 0, 0, 0, 0, 0, 0, 0], 0, 1), "[1::]:1"),
        (
            v6([0x2001, 0, 0, 1, 0, 0, 0, 1], 0, 443),
            "[2001:0:0:1::1]:443",
        ),
        (
            v6([0x2001, 0xdb8, 0, 1, 1, 1, 1, 1], 0, 443),
            "[2001:db8:0:1:1:1:1:1]:443",
        ),
        (v6([0, 0, 1, 0, 0, 1, 0, 0], 0, 9), "[::1:0:0:1:0:0]:9"),
        (
            v6([0, 0, 0, 0, 0, 0xffff, 0xc000, 0x201], 0, 53),
            "[::ffff:192.0.2.1]:53",
        ),
        (
            v6([0xfe80, 0, 0, 0, 0, 0, 0, 1], 3, 22),
            "[fe80::1%3]:22",
        ),
        (
            v6(
                [
                    0xabcd, 0xef01, 0x2345, 0x6789, 0xabcd, 0xef01, 0x2345, 0x6789,
                ],
                0,
                1,
            ),
            "[abcd:ef01:2345:6789:abcd:ef01:2345:6789]:1",
        ),
    ];
    for (addr, text) in cases {
        assert_eq!(addr.to_string(), text);
        assert_eq!(parse(text), Some(addr));
    }
    assert_eq!(v4(1, 2, 3, 4, 5).ip().to_string(), "1.2.3.4");
    assert_eq!(
        v6([0, 0, 0, 0, 0, 0, 0, 1], 0, 1).ip().to_string(),
        "::1"
    );
}

#[test]
fn flow_labels_are_not_written() {
    let mut addr = SocketAddrV6 {
        ip: Ipv6Addr(0xfe80, 0, 0, 0, 0, 0, 0, 1),
        port: 22,
        flowinfo: 7,
        scope_id: 0,
    };
    let read = parse(&SocketAddr::V6(addr).to_string()).unwrap();
    addr.flowinfo = 0;
    assert_eq!(read, SocketAddr::V6(addr));
}

#[test]
fn special_addresses_are_told_apart() {
    assert!(v4(127, 1, 2, 3, 0).ip().is_loopback());
    assert!(!v4(128, 0, 0, 1, 0).ip().is_loopback());
    assert!(v4(0, 0, 0, 0, 9).ip().is_unspecified());
    assert!(!v4(0, 0, 0, 1, 9).ip().is_unspecified());
    assert!(v6([0, 0, 0, 0, 0, 0, 0, 1], 0, 9).ip().is_loopback());
    assert!(v6([0; 8], 0, 9).ip().is_unspecified());
    assert!(!v6([0, 0, 0, 0, 0, 0xffff, 0x7f00, 1], 0, 9).ip().is_loopback());
}

#[test]
fn addresses_to_bind() {
    assert_eq!(
        socket_addr_with_unspecified_ip_port(false).to_string(),
        "0.0.0.0:0"
    );
    assert_eq!(
        socket_addr_with_unspecified_ip_port(true).to_string(),
        "[::]:0"
    );
    assert_eq!(localhost(9000).to_string(), "127.0.0.1:9000");
    assert!(socket_addr_with_unspecified_ip_port(true).is_ipv6());
    assert!(!localhost(1).is_ipv6());
}
