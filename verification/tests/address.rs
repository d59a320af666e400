use secret_agent::address::{parse_bind_address, parse_host, BindAddress, Host};
use secret_agent::scan::{chars_of, find_last, parse_decimal, parse_hex_group, slice, split_fields};

fn v4(quad: u32, port: u16) -> Option<BindAddress> {
    Some(BindAddress { host: Host::V4 { quad }, port })
}

fn v6(groups: u128, scope_id: u32, port: u16) -> Option<BindAddress> {
    Some(BindAddress { host: Host::V6 { groups, scope_id }, port })
}

fn chars(s: &str) -> Vec<char> {
    s.chars().collect()
}

#[test]
fn default_text_is_every_interface_port_8443() {
    assert_eq!(parse_bind_address("0.0.0.0:8443"), v4(0, 8443));
}

#[test]
fn ipv4_octets_are_most_significant_first() {
    assert_eq!(parse_bind_address("127.0.0.1:80"), v4(0x7f00_0001, 80));
    assert_eq!(parse_bind_address("1.2.3.4:5"), v4(0x0102_0304, 5));
    assert_eq!(parse_bind_address("192.168.10.200:8080"), v4(0xc0a8_0ac8, 8080));
}

#[test]
fn ipv4_limits() {
    assert_eq!(parse_bind_address("255.255.255.255:65535"), v4(0xffff_ffff, 65535));
    assert_eq!(parse_bind_address("0.0.0.0:0"), v4(0, 0));
    assert_eq!(parse_bind_address("256.0.0.1:80"), None);
    assert_eq!(parse_bind_address("1.2.3.4:65536"), None);
    assert_eq!(parse_bind_address("1.2.3.4:99999999999999999999999"), None);
}

#[test]
fn port_may_have_leading_zeros() {
    assert_eq!(parse_bind_address("127.0.0.1:0080"), v4(0x7f00_0001, 80));
    assert_eq!(parse_bind_address("127.0.0.1:000000000000000000000000443"), v4(0x7f00_0001, 443));
}

#[test]
fn octet_may_not_have_leading_zeros() {
    assert_eq!(parse_bind_address("01.2.3.4:80"), None);
    assert_eq!(parse_bind_address("1.2.3.00:80"), None);
    assert_eq!(parse_bind_address("1.2.3.0:80"), v4(0x0102_0300, 80));
    assert_eq!(parse_bind_address("1.2.3.0255:80"), None);
}

#[test]
fn ipv4_text_that_writes_no_address() {
    for text in [
        "",
        ":",
        "127.0.0.1",
        "127.0.0.1:",
        ":80",
        "1.2.3:80",
        "1.2.3.4.5:80",
        "1..3.4:80",
        "1.2.3.4:+80",
        "1.2.3.4:-1",
        "1.2.3.4:8 0",
        " 1.2.3.4:80",
        "1.2.3.4:80 ",
        "1.2.3.4:80\n",
        "1.2.3.a:80",
        "localhost:8443",
        "example.com:443",
        "1.2.3.4:5:6",
        "１.2.3.4:80",
        "1.2.3.4:８０",
    ] {
        assert_eq!(parse_bind_address(text), None, "{:?}", text);
    }
}

#[test]
fn ipv6_in_brackets() {
    assert_eq!(parse_bind_address("[::1]:8443"), v6(1, 0, 8443));
    assert_eq!(parse_bind_address("[::]:0"), v6(0, 0, 0));
    assert_eq!(
        parse_bind_address("[1:2:3:4:5:6:7:8]:9"),
        v6(0x0001_0002_0003_0004_0005_0006_0007_0008, 0, 9)
    );
    assert_eq!(
        parse_bind_address("[2001:db8::8a2e:370:7334]:443"),
        v6(0x2001_0db8_0000_0000_0000_8a2e_0370_7334, 0, 443)
    );
    assert_eq!(
        parse_bind_address("[ABCD:ef01::]:80"),
        v6(0xabcd_ef01_0000_0000_0000_0000_0000_0000, 0, 80)
    );
    assert_eq!(
        parse_bind_address("[1:2:3:4:5:6:7::]:1"),
        v6(0x0001_0002_0003_0004_0005_0006_0007_0000, 0, 1)
    );
    assert_eq!(
        parse_bind_address("[::2:3:4:5:6:7:8]:1"),
        v6(0x0000_0002_0003_0004_0005_0006_0007_0008, 0, 1)
    );
}

#[test]
fn ipv6_with_dotted_quad() {
    assert_eq!(parse_bind_address("[::ffff:1.2.3.4]:80"), v6(0xffff_0102_0304, 0, 80));
    assert_eq!(parse_bind_address("[::1.2.3.4]:80"), v6(0x0102_0304, 0, 80));
    assert_eq!(
        parse_bind_address("[1:2:3:4:5:6:1.2.3.4]:80"),
        v6(0x0001_0002_0003_0004_0005_0006_0102_0304, 0, 80)
    );
    assert_eq!(
        parse_bind_address("[64:ff9b::192.0.2.33]:80"),
        v6(0x0064_ff9b_0000_0000_0000_0000_c000_0221, 0, 80)
    );
    assert_eq!(parse_bind_address("[1.2.3.4::]:80"), None);
    assert_eq!(parse_bind_address("[::1.2.3.4:5]:80"), None);
    assert_eq!(parse_bind_address("[1:2:3:4:5:6:7:1.2.3.4]:80"), None);
    assert_eq!(parse_bind_address("[1:2:3:4:5:1.2.3.4]:80"), None);
    assert_eq!(parse_bind_address("[1:2:3:4:5:6::1.2.3.4]:80"), None);
    assert_eq!(
        parse_bind_address("[1:2:3:4:5::1.2.3.4]:80"),
        v6(0x0001_0002_0003_0004_0005_0000_0102_0304, 0, 80)
    );
}

#[test]
fn ipv6_with_zone() {
    assert_eq!(
        parse_bind_address("[fe80::1%3]:80"),
        v6(0xfe80_0000_0000_0000_0000_0000_0000_0001, 3, 80)
    );
    assert_eq!(parse_bind_address("[::1%4294967295]:80"), v6(1, 4294967295, 80));
    assert_eq!(parse_bind_address("[::1%007]:80"), v6(1, 7, 80));
    assert_eq!(parse_bind_address("[::1%4294967296]:80"), None);
    assert_eq!(parse_bind_address("[::1%]:80"), None);
    assert_eq!(parse_bind_address("[::1%1%2]:80"), None);
    assert_eq!(parse_bind_address("[::1%eth0]:80"), None);
    assert_eq!(parse_bind_address("[%1]:80"), None);
}

#[test]
fn ipv6_text_that_writes_no_address() {
    for text in [
        "[::1]",
        "[::1]:",
        "::1:80",
        "[]:80",
        "[:]:80",
        "[:::]:80",
        "[:::1]:80",
        "[1:::2]:80",
        "[1::2::3]:80",
        "[1:2:3:4:5:6:7]:80",
        "[1:2:3:4:5:6:7:8:9]:80",
        "[1:2:3:4:5:6:7:8::]:80",
        "[::1:2:3:4:5:6:7:8]:80",
        "[12345::]:80",
        "[g::]:80",
        "[:1:2:3:4:5:6:7]:80",
        "[1:2:3:4:5:6:7:]:80",
        "[::1]:80 ",
        " [::1]:80",
        "[::1] :80",
        "[[::1]]:80",
        "[::1]:65536",
        "[::1",
        "::1]:80",
        "[1.2.3.4]:80",
    ] {
        assert_eq!(parse_bind_address(text), None, "{:?}", text);
    }
}

#[test]
fn host_alone() {
    assert_eq!(parse_host(&chars("10.0.0.1")), Some(Host::V4 { quad: 0x0a00_0001 }));
    assert_eq!(parse_host(&chars("[::2]")), Some(Host::V6 { groups: 2, scope_id: 0 }));
    assert_eq!(parse_host(&chars("::2")), None);
    assert_eq!(parse_host(&chars("[]")), None);
    assert_eq!(parse_host(&chars("")), None);
}

#[test]
fn fields_between_separators() {
    let fields = |s: &str| -> Vec<String> {
        split_fields(&chars(s), '.').into_iter().map(|f| f.into_iter().collect()).collect()
    };
    assert_eq!(fields(""), vec![""]);
    assert_eq!(fields("a"), vec!["a"]);
    assert_eq!(fields("a.b"), vec!["a", "b"]);
    assert_eq!(fields("."), vec!["", ""]);
    assert_eq!(fields("a..b."), vec!["a", "", "b", ""]);
    assert_eq!(fields(".a"), vec!["", "a"]);
}

#[test]
fn characters_and_slices() {
    assert_eq!(chars_of("a√c"), vec!['a', '√', 'c']);
    assert_eq!(chars_of(""), Vec::<char>::new());
    assert_eq!(slice(&chars("hello"), 1, 3), vec!['e', 'l']);
    assert_eq!(slice(&chars("hello"), 2, 2), Vec::<char>::new());
    assert_eq!(slice(&chars("hello"), 0, 5), chars("hello"));
    assert_eq!(find_last(&chars("a:b:c"), ':'), Some(3));
    assert_eq!(find_last(&chars(":"), ':'), Some(0));
    assert_eq!(find_last(&chars("abc"), ':'), None);
    assert_eq!(find_last(&chars(""), ':'), None);
}

#[test]
fn decimal_numbers() {
    assert_eq!(parse_decimal(&chars("0"), 255), Some(0));
    assert_eq!(parse_decimal(&chars("255"), 255), Some(255));
    assert_eq!(parse_decimal(&chars("256"), 255), None);
    assert_eq!(parse_decimal(&chars("0000255"), 255), Some(255));
    assert_eq!(parse_decimal(&chars("4294967295"), u32::MAX), Some(u32::MAX));
    assert_eq!(parse_decimal(&chars("4294967296"), u32::MAX), None);
    assert_eq!(parse_decimal(&chars(""), 255), None);
    assert_eq!(parse_decimal(&chars("1a"), 255), None);
    assert_eq!(parse_decimal(&chars("a1"), 255), None);
    assert_eq!(parse_decimal(&chars("-1"), 255), None);
    assert_eq!(parse_decimal(&chars("٣"), 255), None);
}

#[test]
fn hexadecimal_groups() {
    assert_eq!(parse_hex_group(&chars("0")), Some(0));
    assert_eq!(parse_hex_group(&chars("ffff")), Some(0xffff));
    assert_eq!(parse_hex_group(&chars("FFFF")), Some(0xffff));
    assert_eq!(parse_hex_group(&chars("aB9")), Some(0xab9));
    assert_eq!(parse_hex_group(&chars("0001")), Some(1));
    assert_eq!(parse_hex_group(&chars("00001")), None);
    assert_eq!(parse_hex_group(&chars("")), None);
    assert_eq!(parse_hex_group(&chars("g")), None);
    assert_eq!(parse_hex_group(&chars("1.2")), None);
}

#[test]
fn fields_make_the_text_again() {
    for text in ["", "a", "a.b", ".", "..", "1.2.3.4", ".x.", "abc"] {
        let fields: Vec<String> = split_fields(&chars(text), '.')
            .into_iter()
            .map(|f| f.into_iter().collect())
            .collect();
        assert!(fields.iter().all(|f: &String| !f.contains('.')));
        assert_eq!(fields.join("."), text);
    }
}
