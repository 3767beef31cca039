use httpget::help::parse_argv;
use httpget::request::{plan_request, resolve_port, url_text};

fn args(items: &[&str]) -> Vec<String> {
    items.iter().map(|s| s.to_string()).collect()
}

#[test]
fn ports_by_scheme() {
    assert_eq!(resolve_port(-1, "http"), Some(80));
    assert_eq!(resolve_port(-1, "https"), Some(443));
    assert_eq!(resolve_port(-1, "ftp"), None);
    assert_eq!(resolve_port(8080, "ftp"), Some(8080));
    assert_eq!(resolve_port(0, "http"), Some(0));
}

#[test]
fn url_text_parts() {
    assert_eq!(url_text("http", "example.com", 80, "/index.html"), "http://example.com:80/index.html");
    assert_eq!(url_text("https", "h", 65535, ""), "https://h:65535");
    assert_eq!(url_text("x", "y", -7, "/"), "x://y:-7/");
}

#[test]
fn plan_direct() {
    let argv = args(&["webget", "http://u:p@example.com/"]);
    let r = parse_argv(argv.len(), argv);
    let plan = plan_request(&r.settings).unwrap();
    assert_eq!(plan.connect_host, "example.com");
    assert_eq!(plan.connect_port, 80);
    assert_eq!(plan.host, "example.com");
    assert_eq!(plan.path, "/");
    assert_eq!(plan.userid, "u");
    assert_eq!(plan.passwd, "p");
    assert_eq!(plan.target_url, "http://example.com:80/");
    assert!(plan.proxy_target.is_none());
}

#[test]
fn plan_through_proxy() {
    let argv = args(&["webget", "https://example.com:8443/a", "--proxy", "http://proxy:3128"]);
    let r = parse_argv(argv.len(), argv);
    let plan = plan_request(&r.settings).unwrap();
    assert_eq!(plan.connect_host, "proxy");
    assert_eq!(plan.connect_port, 3128);
    assert_eq!(plan.host, "example.com");
    assert_eq!(plan.path, "https://example.com:8443/a");
    assert_eq!(plan.proxy_target.as_deref(), Some("http://proxy:3128/"));
}

#[test]
fn plan_unknown_scheme_has_no_port() {
    let argv = args(&["webget", "ftp://example.com/file"]);
    let r = parse_argv(argv.len(), argv);
    assert!(plan_request(&r.settings).is_none());
}
