use mindgate::engine::{
    ipv4_text, ipv6_text, leaked_poll_step, next_apply_stage, PollStep, resolver_decision, AddressSet, ApplyStage, IpAddress, NftEngine,
    ResolverAction, ResolverProbe, RuleSet, WebsiteRule, UPSTREAM_RESOLVER,
};

fn set_of(ips: &[IpAddress]) -> AddressSet {
    let mut set = AddressSet::new();
    for ip in ips {
        set.insert(*ip);
    }
    set
}

/// 2606:2800:220:1:248:1893:25c8:1946
const EXAMPLE_V6: [u16; 8] = [0x2606, 0x2800, 0x220, 0x1, 0x248, 0x1893, 0x25c8, 0x1946];
const EXAMPLE_V6_ADDR: IpAddress = IpAddress::V6(EXAMPLE_V6);

#[test]
fn filter_script_includes_both_families_and_dot_block() {
    let ips = vec![IpAddress::V4([93, 184, 216, 34]), IpAddress::V6(EXAMPLE_V6)];
    let script = NftEngine::render_filter_script(&set_of(&ips));
    assert!(script.contains("93.184.216.34"));
    assert!(script.contains("2606:2800:220:1:248:1893:25c8:1946"));
    assert!(script.contains("table inet mindgate"));
    assert!(script.contains("ip daddr @blocked_v4 counter drop"));
    assert!(script.contains("tcp dport 853 counter drop"));
}

#[test]
fn filter_script_handles_empty_set() {
    let script = NftEngine::render_filter_script(&AddressSet::new());
    assert!(!script.contains("elements ="));
    assert!(script.contains("set blocked_v4"));
    assert!(script.contains("set blocked_v6"));
}

#[test]
fn filter_script_omits_elements_for_family_with_no_addresses() {
    let ips = vec![IpAddress::V6(EXAMPLE_V6)];
    let script = NftEngine::render_filter_script(&set_of(&ips));
    let v4_block = script.split("set blocked_v4").nth(1).unwrap().split("set blocked_v6").next().unwrap();
    assert!(!v4_block.contains("elements ="));
}

#[test]
fn dns_redirect_script_targets_resolver_port() {
    let script = NftEngine::render_dns_redirect_script(UPSTREAM_RESOLVER);
    assert!(script.contains("table ip mindgate_dns"));
    assert!(script.contains("th dport 53 redirect to :5353"));
    assert!(script.contains("hook output priority -100"));
}

#[test]
fn dns_redirect_script_exempts_upstream_to_avoid_self_redirect_loop() {
    let script = NftEngine::render_dns_redirect_script(UPSTREAM_RESOLVER);
    assert!(script.contains(&format!("ip daddr {} accept", UPSTREAM_RESOLVER)));
    let accept_pos = script.find("accept").unwrap();
    let redirect_pos = script.find("redirect to").unwrap();
    assert!(accept_pos < redirect_pos);
}

#[test]
fn resolver_config_blackholes_doh_canary_even_with_no_rules() {
    let config = NftEngine::render_resolver_config(&[], "1.1.1.1");
    assert!(config.contains("server=/use-application-dns.net/"));
    assert!(config.contains("server=1.1.1.1"));
    assert!(config.contains("port=5353"));
}

#[test]
fn resolver_config_blackholes_each_blocked_domain() {
    let websites = vec![
        WebsiteRule { domain: "reddit.com".into() },
        WebsiteRule { domain: "twitter.com".into() },
    ];
    let config = NftEngine::render_resolver_config(&websites, "1.1.1.1");
    assert!(config.contains("server=/reddit.com/"));
    assert!(config.contains("server=/twitter.com/"));
    assert!(config.contains("server=/use-application-dns.net/"));
}

#[test]
fn resolver_config_exact_text() {
    let websites = vec![WebsiteRule { domain: "example.org".into() }];
    let config = NftEngine::render_resolver_config(&websites, "9.9.9.9");
    assert_eq!(
        config,
        "# Generated by mindgated \u{2014} do not edit by hand.\nno-resolv\nno-hosts\nbind-interfaces\n\
         listen-address=127.0.0.1\nport=5353\nserver=9.9.9.9\nserver=/use-application-dns.net/\n\
         server=/example.org/\n"
    );
}

#[test]
fn dns_redirect_script_exact_text() {
    let script = NftEngine::render_dns_redirect_script("1.1.1.1");
    assert_eq!(
        script,
        "table ip mindgate_dns {\n    chain output {\n        type nat hook output priority -100; policy accept;\n        \
         ip daddr 1.1.1.1 accept\n        meta l4proto { tcp, udp } th dport 53 redirect to :5353\n    }\n}\n"
    );
}

#[test]
fn filter_script_exact_text_with_two_v4_addresses() {
    let ips = vec![IpAddress::V4([1, 2, 3, 4]), IpAddress::V4([10, 0, 0, 255])];
    let script = NftEngine::render_filter_script(&set_of(&ips));
    let expected = "table inet mindgate {\n    set blocked_v4 {\n        type ipv4_addr;\n        flags interval;\n        \
         elements = { 1.2.3.4, 10.0.0.255 }\n    }\n\n    set blocked_v6 {\n        type ipv6_addr;\n        \
         flags interval;\n    }\n\n    chain output {\n        type filter hook output priority 0; policy accept;\n        \
         ip daddr @blocked_v4 counter drop\n        ip6 daddr @blocked_v6 counter drop\n        \
         tcp dport 853 counter drop\n    }\n}\n";
    assert_eq!(script, expected);
}

#[test]
fn ipv4_text_is_dotted_decimal() {
    assert_eq!(ipv4_text(&[0, 0, 0, 0]), "0.0.0.0");
    assert_eq!(ipv4_text(&[255, 10, 1, 100]), "255.10.1.100");
}

#[test]
fn ipv6_text_follows_rfc_5952() {
    assert_eq!(ipv6_text(&[0; 8]), "::");
    assert_eq!(ipv6_text(&[0, 0, 0, 0, 0, 0, 0, 1]), "::1");
    assert_eq!(ipv6_text(&[0x2001, 0xdb8, 0, 0, 0, 0, 0, 1]), "2001:db8::1");
    assert_eq!(ipv6_text(&[0xfe80, 0, 0, 0, 0, 0, 1, 2]), "fe80::1:2");
    assert_eq!(ipv6_text(&[0, 0, 0, 0, 0, 0, 0xc0a8, 1]), "::c0a8:1");
    assert_eq!(ipv6_text(&EXAMPLE_V6), "2606:2800:220:1:248:1893:25c8:1946");
    assert_eq!(ipv6_text(&[0xffff; 8]), "ffff:ffff:ffff:ffff:ffff:ffff:ffff:ffff");
    assert_eq!(ipv6_text(&[0, 0, 1, 0, 0, 0, 0, 0]), "0:0:1::");
}

#[test]
fn ipv6_text_compresses_first_longest_zero_run() {
    assert_eq!(ipv6_text(&[1, 0, 0, 2, 0, 0, 0, 3]), "1:0:0:2::3");
    assert_eq!(ipv6_text(&[1, 0, 0, 2, 0, 0, 3, 4]), "1::2:0:0:3:4");
    assert_eq!(ipv6_text(&[1, 0, 2, 3, 4, 5, 6, 7]), "1:0:2:3:4:5:6:7");
    assert_eq!(ipv6_text(&[0, 0, 0, 0, 0, 0xffff, 0xc0a8, 0x0001]), "::ffff:192.168.0.1");
}

#[test]
fn rule_set_counts_its_rules() {
    let mut rules = RuleSet::default();
    assert_eq!(rules.total_rules(), 0);
    rules.websites.push(WebsiteRule { domain: "reddit.com".into() });
    assert_eq!(rules.total_rules(), 1);
}

#[test]
fn engine_defaults_to_system_binaries() {
    let engine = NftEngine::default();
    assert_eq!(engine.nft_binary, "nft");
    assert_eq!(engine.dnsmasq_binary, "dnsmasq");
}

#[test]
fn dnsmasq_arguments() {
    assert_eq!(NftEngine::conf_file_arg("/run/mindgate/dnsmasq.conf"), "--conf-file=/run/mindgate/dnsmasq.conf");
    assert_eq!(
        NftEngine::leaked_resolver_pattern("/run/mindgate/dnsmasq.conf"),
        "dnsmasq.*--conf-file[= ]/run/mindgate/dnsmasq.conf"
    );
}

#[test]
fn pgrep_output_lines_match_std_lines() {
    for text in ["", "\n", "123\n456\n", "123\r\n\n456", "7", "a\r", "\r\n\r\n", "1\n\n2\n\n", "x\ry\n"] {
        let expected: Vec<String> = text.lines().filter(|l| !l.is_empty()).map(|l| l.to_string()).collect();
        assert_eq!(mindgate::text::non_empty_lines(text), expected, "{text:?}");
    }
}

fn key(ip: &IpAddress) -> (u8, u128) {
    match ip {
        IpAddress::V4(o) => (0, u32::from_be_bytes(*o) as u128),
        IpAddress::V6(s) => (1, s.iter().fold(0u128, |acc, g| (acc << 16) | *g as u128)),
    }
}

#[test]
fn address_set_orders_like_ipaddr_and_drops_duplicates() {
    let v6 = IpAddress::V6([0, 0, 0, 0, 0, 0, 0, 1]);
    let a = IpAddress::V4([10, 0, 0, 1]);
    let b = IpAddress::V4([9, 255, 255, 255]);
    let c = IpAddress::V4([10, 0, 0, 0]);
    let set = set_of(&[v6, a, b, a, c, v6, EXAMPLE_V6_ADDR]);
    let keys: Vec<(u8, u128)> = set.addresses().iter().map(key).collect();
    assert_eq!(set.len(), 5);
    assert_eq!(keys, vec![key(&b), key(&c), key(&a), key(&v6), key(&EXAMPLE_V6_ADDR)]);
}

#[test]
fn filter_script_lists_addresses_in_set_order() {
    let set = set_of(&[IpAddress::V4([10, 0, 0, 255]), IpAddress::V4([1, 2, 3, 4]), IpAddress::V4([1, 2, 3, 4])]);
    let script = NftEngine::render_filter_script(&set);
    assert!(script.contains("elements = { 1.2.3.4, 10.0.0.255 }"));
}

#[test]
fn resolver_decisions() {
    assert!(matches!(resolver_decision(false, &ResolverProbe::Running), ResolverAction::SkipDryRun));
    assert!(matches!(resolver_decision(true, &ResolverProbe::Running), ResolverAction::ReplaceOld));
    assert!(matches!(resolver_decision(true, &ResolverProbe::Unknown), ResolverAction::ReplaceOld));
    let probe = ResolverProbe::Exited { status: "exit status: 2".into(), stderr_trimmed: "port in use".into() };
    match resolver_decision(true, &probe) {
        ResolverAction::Fail { message } => assert_eq!(
            message,
            "dnsmasq exited immediately after spawn (status: exit status: 2). dnsmasq stderr: port in use"
        ),
        other => panic!("unexpected {other:?}"),
    }
    let quiet = ResolverProbe::Exited { status: "exit status: 1".into(), stderr_trimmed: String::new() };
    match resolver_decision(true, &quiet) {
        ResolverAction::Fail { message } => assert_eq!(
            message,
            "dnsmasq exited immediately after spawn (status: exit status: 1). dnsmasq stderr: \
             <empty \u{2014} dnsmasq printed nothing to stderr>"
        ),
        other => panic!("unexpected {other:?}"),
    }
}

#[test]
fn apply_stages_stop_on_resolver_failure() {
    assert_eq!(next_apply_stage(ApplyStage::ResolveAddresses, true), ApplyStage::StartResolver);
    assert_eq!(next_apply_stage(ApplyStage::StartResolver, false), ApplyStage::Aborted);
    assert_eq!(next_apply_stage(ApplyStage::Aborted, true), ApplyStage::Aborted);
    assert_eq!(next_apply_stage(ApplyStage::StartResolver, true), ApplyStage::CheckNft);
    assert_eq!(next_apply_stage(ApplyStage::CheckNft, false), ApplyStage::Finished);
    assert_eq!(next_apply_stage(ApplyStage::CheckNft, true), ApplyStage::LoadRedirect);
    assert_eq!(next_apply_stage(ApplyStage::LoadRedirect, false), ApplyStage::Aborted);
    assert_eq!(next_apply_stage(ApplyStage::LoadRedirect, true), ApplyStage::LoadFilter);
    assert_eq!(next_apply_stage(ApplyStage::LoadFilter, true), ApplyStage::Finished);
    assert_eq!(next_apply_stage(ApplyStage::LoadFilter, false), ApplyStage::Aborted);
}

#[test]
fn leaked_resolver_wait_is_bounded() {
    assert_eq!(leaked_poll_step(false, 0), PollStep::AllGone);
    assert_eq!(leaked_poll_step(false, 5_000), PollStep::AllGone);
    assert_eq!(leaked_poll_step(true, 999), PollStep::PollAgain);
    assert_eq!(leaked_poll_step(true, 1_000), PollStep::GiveUp);
}
