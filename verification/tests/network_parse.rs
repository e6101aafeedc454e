use cunzhi::network_parse::{
    ipv4_octets, is_private_lan_ipv4, is_rfc2544_benchmark_ipv4, is_tailscale_ipv4,
    is_valid_ipv4, parse_first_ipv4_line, parse_first_tailscale_ipv4_from_ifconfig,
    parse_windows_private_default_route_ipv4,
};

#[test]
fn ipv4_line_parser_skips_rfc2544_fake_ip_ranges() {
    assert_eq!(
        parse_first_ipv4_line("198.18.0.1\n192.168.0.101\n"),
        Some("192.168.0.101".to_string())
    );
    assert_eq!(parse_first_ipv4_line("198.19.255.254\n"), None);
}

#[test]
fn ipv4_line_parser_keeps_tailscale_addresses() {
    assert_eq!(
        parse_first_ipv4_line("100.64.0.1\n"),
        Some("100.64.0.1".to_string())
    );
}

#[test]
fn windows_default_route_parser_prefers_private_lan_over_fake_ip_route() {
    let routes = "0.0.0.0 0.0.0.0 198.18.0.2 198.18.0.1 0\n0.0.0.0 0.0.0.0 192.168.0.1 192.168.0.101 35\n";
    assert_eq!(
        parse_windows_private_default_route_ipv4(routes),
        Some("192.168.0.101".to_string())
    );
    assert_eq!(
        parse_windows_private_default_route_ipv4("0.0.0.0 0.0.0.0 198.18.0.2 198.18.0.1 0\n"),
        None
    );
}

#[test]
fn ipv4_octets_reads_four_parts() {
    assert_eq!(ipv4_octets("192.168.0.101"), Some([192, 168, 0, 101]));
    assert_eq!(ipv4_octets("001.2.3.4"), Some([1, 2, 3, 4]));
    assert_eq!(ipv4_octets("256.1.1.1"), None);
    assert_eq!(ipv4_octets("1.2.3"), None);
    assert_eq!(ipv4_octets("1.2.3.4.5"), None);
    assert_eq!(ipv4_octets("1..3.4"), None);
    assert_eq!(ipv4_octets("1.2.3.+4"), None);
    assert_eq!(ipv4_octets("1234.2.3.4"), None);
    assert_eq!(ipv4_octets(" 1.2.3.4"), None);
}

#[test]
fn ipv4_range_predicates() {
    assert!(is_valid_ipv4("10.0.0.1"));
    assert!(!is_valid_ipv4("10.0.0"));
    assert!(is_tailscale_ipv4("100.127.255.255"));
    assert!(!is_tailscale_ipv4("100.128.0.1"));
    assert!(!is_tailscale_ipv4("100.63.0.1"));
    assert!(is_rfc2544_benchmark_ipv4("198.18.5.5"));
    assert!(!is_rfc2544_benchmark_ipv4("198.20.0.1"));
    assert!(is_private_lan_ipv4("10.1.2.3"));
    assert!(is_private_lan_ipv4("172.16.0.1"));
    assert!(is_private_lan_ipv4("172.31.255.1"));
    assert!(!is_private_lan_ipv4("172.32.0.1"));
    assert!(is_private_lan_ipv4("192.168.1.1"));
    assert!(!is_private_lan_ipv4("192.169.1.1"));
}

#[test]
fn ipv4_line_parser_trims_and_handles_crlf() {
    assert_eq!(
        parse_first_ipv4_line("  \r\nnot-an-ip\r\n 10.0.0.7 \r\n"),
        Some("10.0.0.7".to_string())
    );
    assert_eq!(parse_first_ipv4_line(""), None);
}

#[test]
fn ifconfig_parser_finds_tailscale_inet_line() {
    let output = "utun3: flags=8051\n\tinet 100.101.102.103 --> 100.101.102.103 netmask 0xffffffff\n\tinet 192.168.1.2 netmask 0xffffff00\n";
    assert_eq!(
        parse_first_tailscale_ipv4_from_ifconfig(output),
        Some("100.101.102.103".to_string())
    );
    assert_eq!(
        parse_first_tailscale_ipv4_from_ifconfig("\tinet 192.168.1.2 netmask 0xffffff00\n"),
        None
    );
}
