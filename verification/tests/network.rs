use mcscan::network::{
    format_ip, increment_ip, parse_ipv4, parse_subnet_line, parse_subnets,
    random_ip_from_subnet, random_ipv4_fallback, random_ipv4_from_subnets, NetworkBlock,
};

#[test]
fn increment_wraps_at_the_top() {
    assert_eq!(increment_ip(0x0A000001, 1), 0x0A000002);
    assert_eq!(increment_ip(0xFFFFFFFF, 1), 0x00000000);
    assert_eq!(increment_ip(0xFFFFFFFE, 5), 0x00000003);
    assert_eq!(increment_ip(7, 0), 7);
}

#[test]
fn advance_composes_modulo_two_to_the_32() {
    let a = 0xC0A80000u32;
    let x = 0x80000000u32;
    let y = 0x80000005u32;
    let composed = increment_ip(increment_ip(a, x), y);
    let folded = increment_ip(a, x.wrapping_add(y));
    assert_eq!(composed, folded);
}

#[test]
fn tiny_blocks_sample_deterministically() {
    // One host bit or none: always base + 1.
    assert_eq!(random_ip_from_subnet(0xC0A80100, 31), 0xC0A80101);
    assert_eq!(random_ip_from_subnet(0xC0A80100, 32), 0xC0A80101);
    assert_eq!(random_ip_from_subnet(0xFFFFFFFF, 32), 0x00000000);
}

#[test]
fn wide_blocks_never_yield_the_network_address() {
    let base = 0x0A000000u32;
    for _ in 0..200 {
        let ip = random_ip_from_subnet(base, 24);
        assert_ne!(ip, base, "the all-zero host address must never come out");
        assert_eq!(ip & 0xFFFFFF00, base, "the sample must stay inside the block");
        assert!(ip & 0xFF >= 1);
    }
}

#[test]
fn sampling_from_blocks_stays_inside_one() {
    let blocks = vec![
        NetworkBlock { base: 0x0A000000, prefix: 24 },
        NetworkBlock { base: 0xC0000200, prefix: 24 },
    ];
    for _ in 0..100 {
        let ip = random_ipv4_from_subnets(&blocks);
        let inside_first = ip & 0xFFFFFF00 == 0x0A000000;
        let inside_second = ip & 0xFFFFFF00 == 0xC0000200;
        assert!(inside_first || inside_second);
    }
}

#[test]
fn fallback_addresses_avoid_reserved_ranges() {
    for _ in 0..200 {
        let ip = random_ipv4_fallback();
        let o0 = ip >> 24;
        let o1 = (ip >> 16) & 0xFF;
        let o3 = ip & 0xFF;
        assert!((1..=223).contains(&o0));
        assert!((1..=254).contains(&o3));
        assert_ne!(o0, 10);
        assert_ne!(o0, 127);
        assert!(!(o0 == 172 && (16..=31).contains(&o1)));
        assert!(!(o0 == 192 && o1 == 168));
    }
}

#[test]
fn parse_ipv4_accepts_plain_quads() {
    assert_eq!(parse_ipv4("0.0.0.0"), Some(0));
    assert_eq!(parse_ipv4("10.0.0.1"), Some(0x0A000001));
    assert_eq!(parse_ipv4("192.168.1.0"), Some(0xC0A80100));
    assert_eq!(parse_ipv4("255.255.255.255"), Some(0xFFFFFFFF));
}

#[test]
fn parse_ipv4_rejects_malformed_quads() {
    assert_eq!(parse_ipv4(""), None);
    assert_eq!(parse_ipv4("1.2.3"), None);
    assert_eq!(parse_ipv4("1.2.3.4.5"), None);
    assert_eq!(parse_ipv4("1.2.3.256"), None);
    assert_eq!(parse_ipv4("01.2.3.4"), None);
    assert_eq!(parse_ipv4("1.2.3.04"), None);
    assert_eq!(parse_ipv4("a.b.c.d"), None);
    assert_eq!(parse_ipv4("1.2.3.+4"), None);
    assert_eq!(parse_ipv4("1..3.4"), None);
}

#[test]
fn parse_line_handles_comments_and_whitespace() {
    assert_eq!(
        parse_subnet_line("10.0.0.0/8"),
        Some(NetworkBlock { base: 0x0A000000, prefix: 8 })
    );
    assert_eq!(
        parse_subnet_line("  192.168.1.0/24  "),
        Some(NetworkBlock { base: 0xC0A80100, prefix: 24 })
    );
    assert_eq!(parse_subnet_line("# 10.0.0.0/8"), None);
    assert_eq!(parse_subnet_line(""), None);
    assert_eq!(parse_subnet_line("   "), None);
    assert_eq!(parse_subnet_line("10.0.0.0"), None);
    assert_eq!(parse_subnet_line("10.0.0.0/33"), None);
    assert_eq!(parse_subnet_line("10.0.0.0/8/9"), None);
    assert_eq!(parse_subnet_line("bad/8"), None);
}

#[test]
fn parse_subnets_keeps_good_lines_in_order() {
    let text = "10.0.0.0/8\n# a comment\n\n192.168.1.0/24\nbad/99\n1.2.3.4/33\n172.16.0.0/12\n";
    let blocks = parse_subnets(text);
    assert_eq!(blocks.len(), 3);
    assert_eq!(blocks[0], NetworkBlock { base: 0x0A000000, prefix: 8 });
    assert_eq!(blocks[1], NetworkBlock { base: 0xC0A80100, prefix: 24 });
    assert_eq!(blocks[2], NetworkBlock { base: 0xAC100000, prefix: 12 });
}

#[test]
fn parse_subnets_of_empty_input_is_empty() {
    assert_eq!(parse_subnets("").len(), 0);
    assert_eq!(parse_subnets("# only a comment\n").len(), 0);
}

#[test]
fn format_ip_writes_dotted_quads() {
    assert_eq!(format_ip(0x0A000001), "10.0.0.1");
    assert_eq!(format_ip(0), "0.0.0.0");
    assert_eq!(format_ip(0xFFFFFFFF), "255.255.255.255");
    assert_eq!(format_ip(0xC0A80164), "192.168.1.100");
}

#[test]
fn format_and_parse_are_inverse_on_samples() {
    for ip in [0u32, 1, 0x0A000001, 0x7F000001, 0xC0A80101, 0xFFFFFFFF] {
        assert_eq!(parse_ipv4(&format_ip(ip)), Some(ip));
    }
}
