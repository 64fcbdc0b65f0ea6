use fourth::config::{ParsedConfig, ProxyToUpstream, ServerConfig, Upstream};

fn server(listen: &[&str], tls: Option<bool>, sni: Option<&[(&str, &str)]>, default: Option<&str>) -> ServerConfig {
    ServerConfig {
        listen: listen.iter().map(|s| s.to_string()).collect(),
        protocol: None,
        tls,
        sni: sni.map(|entries| entries.iter().map(|(h, u)| (h.to_string(), u.to_string())).collect()),
        default: default.map(|s| s.to_string()),
    }
}

fn table() -> ParsedConfig {
    let web = ProxyToUpstream::new("web".to_string(), "w:80".to_string(), "tcp".to_string());
    ParsedConfig {
        version: 1,
        log: None,
        servers: vec![
            ("tls".to_string(), server(&["0.0.0.0:443", "[::]:443"], Some(true), Some(&[("a.example", "web"), ("b.example", "ban")]), Some("echo"))),
            ("plain".to_string(), server(&["0.0.0.0:80"], None, None, Some("web"))),
        ],
        upstream: vec![
            ("web".to_string(), Upstream::Proxy(web)),
            ("ban".to_string(), Upstream::Ban),
            ("echo".to_string(), Upstream::Echo),
        ],
    }
}

#[test]
fn upstream_is_found_by_name() {
    let t = table();
    assert!(matches!(t.find_upstream(&"ban".to_string()), Some(Upstream::Ban)));
    assert!(matches!(t.find_upstream(&"echo".to_string()), Some(Upstream::Echo)));
    match t.find_upstream(&"web".to_string()) {
        Some(Upstream::Proxy(p)) => assert_eq!(p.addr, "w:80"),
        _ => panic!("expected the proxy"),
    }
    assert!(t.find_upstream(&"db".to_string()).is_none());
}

#[test]
fn server_is_found_by_listen_address() {
    let t = table();
    assert_eq!(t.find_server(&"[::]:443".to_string()).unwrap().default, Some("echo".to_string()));
    assert_eq!(t.find_server(&"0.0.0.0:80".to_string()).unwrap().default, Some("web".to_string()));
    assert!(t.find_server(&"0.0.0.0:81".to_string()).is_none());
}

#[test]
fn sni_selects_the_upstream_where_tls_is_enabled() {
    let t = table();
    let tls = &t.servers[0].1;
    assert_eq!(tls.upstream_for(Some(&"a.example".to_string())), Some(&"web".to_string()));
    assert_eq!(tls.upstream_for(Some(&"b.example".to_string())), Some(&"ban".to_string()));
    assert_eq!(tls.upstream_for(Some(&"c.example".to_string())), Some(&"echo".to_string()));
    assert_eq!(tls.upstream_for(None), Some(&"echo".to_string()));
}

#[test]
fn default_decides_where_tls_is_disabled() {
    let off = server(&["x:1"], Some(false), Some(&[("a.example", "web")]), Some("ban"));
    assert_eq!(off.upstream_for(Some(&"a.example".to_string())), Some(&"ban".to_string()));
    let unset = server(&["x:1"], None, Some(&[("a.example", "web")]), None);
    assert_eq!(unset.upstream_for(Some(&"a.example".to_string())), None);
}

#[test]
fn first_sni_entry_of_a_hostname_decides() {
    let s = server(&["x:1"], Some(true), Some(&[("a.example", "one"), ("a.example", "two")]), None);
    assert_eq!(s.upstream_for(Some(&"a.example".to_string())), Some(&"one".to_string()));
}
