use httpget::help::get;
use httpget::help::{parse_args_as, parse_argv, parse_named, try_parse_argv, usage_text, ArgvStop, Settings};

fn args(items: &[&str]) -> Vec<String> {
    items.iter().map(|s| s.to_string()).collect()
}

#[test]
fn target_url_parts() {
    let argv = args(&["/usr/bin/webget", "http://alice:pw@example.com:8080/a/b?q=1"]);
    let r = parse_argv(argv.len(), argv);
    assert!(r.stop.is_none());
    assert!(r.accepted());
    let s = &r.settings;
    assert_eq!(s.iam.as_deref(), Some("webget"));
    assert_eq!(get::scheme(s), "http");
    assert_eq!(get::domain(s), "example.com");
    assert_eq!(get::path(s), "/a/b");
    assert_eq!(get::port(s), 8080);
    assert_eq!(get::userid(s), "alice");
    assert_eq!(get::passwd(s), "pw");
    assert_eq!(get::proxyurl(s), "");
    assert_eq!(get::proxyport(s), -1);
}

#[test]
fn target_without_port_or_password() {
    let argv = args(&["webget", "https://example.org"]);
    let r = parse_argv(argv.len(), argv);
    assert!(r.stop.is_none());
    assert_eq!(get::port(&r.settings), -1);
    assert_eq!(get::path(&r.settings), "/");
    assert_eq!(get::userid(&r.settings), "");
    assert_eq!(get::passwd(&r.settings), "");
}

#[test]
fn proxy_url_parts() {
    let argv = args(&["webget", "--proxy", "http://proxy.local:3128/", "http://example.com/x"]);
    let r = parse_argv(argv.len(), argv);
    assert!(r.stop.is_none());
    let s = &r.settings;
    assert_eq!(get::proxyurl(s), "http://proxy.local:3128/");
    assert_eq!(get::proxyscheme(s), "http");
    assert_eq!(get::proxydomain(s), "proxy.local");
    assert_eq!(get::proxypath(s), "/");
    assert_eq!(get::proxyport(s), 3128);
    assert_eq!(get::domain(s), "example.com");
}

#[test]
fn help_stops() {
    let argv = args(&["webget", "-h"]);
    assert!(matches!(parse_argv(argv.len(), argv).stop, Some(ArgvStop::Help)));
    let argv = args(&["webget", "http://example.com/", "--help"]);
    let r = parse_argv(argv.len(), argv);
    assert!(matches!(r.stop, Some(ArgvStop::Help)));
    assert_eq!(get::domain(&r.settings), "example.com");
}

#[test]
fn too_few_args() {
    let argv = args(&["webget"]);
    let r = parse_argv(argv.len(), argv);
    assert!(matches!(r.stop, Some(ArgvStop::TooFewArgs)));
    assert!(!r.accepted());
    assert_eq!(usage_text(&r.settings), "webget <targetURL> [{-p|--proxy} <proxyURL>] [-h|--help]");
    assert!(r.settings.def_proxy_url.is_none());
}

#[test]
fn missing_proxy_url() {
    let argv = args(&["webget", "--proxy"]);
    assert!(matches!(parse_argv(argv.len(), argv).stop, Some(ArgvStop::MissingProxyUrl)));
}

#[test]
fn illegal_urls() {
    let argv = args(&["webget", "not a url"]);
    match parse_argv(argv.len(), argv).stop {
        Some(ArgvStop::UrlParseError(m)) => assert!(!m.is_empty()),
        _ => panic!("expected a parse error"),
    }
    let argv = args(&["webget", "--proxy", "::bad"]);
    assert!(matches!(parse_argv(argv.len(), argv).stop, Some(ArgvStop::IllegalProxyUrl(_))));
}

#[test]
fn urls_without_host() {
    let argv = args(&["webget", "data:text/plain,Stuff"]);
    assert!(matches!(parse_argv(argv.len(), argv).stop, Some(ArgvStop::UrlHostError)));
    let argv = args(&["webget", "--proxy", "unix:/run/foo.socket"]);
    let r = parse_argv(argv.len(), argv);
    assert!(matches!(r.stop, Some(ArgvStop::ProxyHostError)));
    assert_eq!(r.settings.proxy_url.as_deref(), Some("unix:/run/foo.socket"));
    assert!(r.settings.pxy_scheme.is_none());
}

#[test]
fn argc_limits_the_arguments_read() {
    let argv = args(&["webget", "http://example.com/", "-h"]);
    let r = parse_argv(2, argv);
    assert!(r.stop.is_none());
}

#[test]
fn repeated_target_is_refused() {
    let argv = args(&["webget", "http://a.example/", "http://b.example/"]);
    assert!(try_parse_argv(argv.len(), argv).is_none());
    let argv = args(&["webget", "--proxy", "http://p/", "--proxy", "http://q/"]);
    assert!(try_parse_argv(argv.len(), argv).is_none());
    let argv = args(&["webget", "http://a.example/"]);
    assert!(try_parse_argv(argv.len(), argv).unwrap().stop.is_none());
}

#[test]
fn parse_with_known_name() {
    let argv = args(&["ignored", "http://h/"]);
    let r = parse_args_as("prog".to_string(), argv.len(), &argv);
    assert_eq!(r.settings.iam.as_deref(), Some("prog"));
    assert_eq!(get::domain(&r.settings), "h");
}

#[test]
fn fresh_settings_are_unset() {
    let s = Settings::new();
    assert!(s.iam.is_none() && s.dst_scheme.is_none() && s.proxy_url.is_none());
    assert_eq!(s.dst_port, -1);
    assert_eq!(s.pxy_port, -1);
}

#[test]
fn short_proxy_flag() {
    let argv = args(&["webget", "http://example.com/", "-p", "http://proxy.local:3128"]);
    let r = parse_argv(argv.len(), argv);
    assert!(r.stop.is_none());
    assert_eq!(get::proxyurl(&r.settings), "http://proxy.local:3128");
    assert_eq!(get::proxydomain(&r.settings), "proxy.local");
    assert_eq!(get::proxyport(&r.settings), 3128);
    let argv = args(&["webget", "http://example.com/", "-p"]);
    assert!(matches!(parse_argv(argv.len(), argv).stop, Some(ArgvStop::MissingProxyUrl)));
}

#[test]
fn target_is_required() {
    let argv = args(&["webget", "--proxy", "http://proxy.local:3128"]);
    let r = parse_argv(argv.len(), argv);
    assert!(matches!(r.stop, Some(ArgvStop::MissingTarget)));
    assert!(!r.accepted());
    assert_eq!(r.settings.proxy_url.as_deref(), Some("http://proxy.local:3128"));
    assert!(r.settings.dst_scheme.is_none());
}

#[test]
fn no_program_name() {
    for first in ["/", ""] {
        let argv = args(&[first, "http://example.com/"]);
        let r = parse_argv(argv.len(), argv);
        assert!(matches!(r.stop, Some(ArgvStop::NoProgramName)));
        assert!(r.settings.iam.is_none());
        assert!(r.settings.dst_scheme.is_none());
        assert!(r.settings.def_proxy_url.is_none());
    }
    let argv = args(&["ignored", "http://h/"]);
    let r = parse_named(None, argv.len(), &argv);
    assert!(matches!(r.stop, Some(ArgvStop::NoProgramName)));
    let r = parse_named(Some("w".to_string()), argv.len(), &argv);
    assert!(r.stop.is_none());
    assert_eq!(r.settings.iam.as_deref(), Some("w"));
}

#[test]
fn argc_beyond_arguments() {
    let argv = args(&["w", "-h"]);
    let r = try_parse_argv(5, argv).unwrap();
    assert!(matches!(r.stop, Some(ArgvStop::Help)));
    let argv = args(&["w", "http://a.example/"]);
    assert!(try_parse_argv(5, argv).is_none());
    let argv = args(&["w", "--proxy"]);
    assert!(try_parse_argv(3, argv).is_none());
    assert!(try_parse_argv(0, Vec::new()).is_none());
}

#[test]
fn program_name_is_last_component() {
    for (first, name) in [("./webget", "webget"), ("../bin/web_get-2", "web_get-2"), ("webget", "webget")] {
        let argv = args(&[first, "http://example.com/"]);
        let r = parse_argv(argv.len(), argv);
        assert!(r.stop.is_none());
        assert_eq!(r.settings.iam.as_deref(), Some(name));
    }
}
