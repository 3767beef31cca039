//! What holds of every command line that is read.
use vstd::prelude::*;
use super::{
    spec_url_parse, scan_args, argv_outcome, argv_scan_fails, argv_fails, base_settings,
    is_help_flag, is_proxy_flag, with_proxy_parts, with_target_parts, SettingsView,
};
use crate::request::{plannable, proxy_text};

verus! {

/// The text parses as a URL that has a host.
pub open spec fn url_has_host(url: Seq<char>) -> bool {
    spec_url_parse(url) matches Ok(parts) && parts.1 is Some
}

/// The port that a URL gives, or -1 when it gives none or does not parse.
pub open spec fn url_port(url: Seq<char>) -> i32 {
    match spec_url_parse(url) {
        Ok(parts) => match parts.3 {
            Some(p) => p as i32,
            None => -1i32,
        },
        Err(_) => -1i32,
    }
}

/// How many target URLs and how many proxy flags stand among the arguments
/// from position `ax` below `argc`, read as the command line reads them (the
/// argument after a proxy flag is its URL).
pub open spec fn url_counts(args: Seq<Seq<char>>, argc: int, ax: int) -> (nat, nat)
    decreases argc - ax,
{
    if ax >= argc || ax < 0 {
        (0, 0)
    } else if is_help_flag(args[ax]) {
        url_counts(args, argc, ax + 1)
    } else if is_proxy_flag(args[ax]) {
        if argc > ax + 1 {
            let c = url_counts(args, argc, ax + 2);
            (c.0, c.1 + 1)
        } else {
            (0, 1)
        }
    } else {
        let c = url_counts(args, argc, ax + 1);
        (c.0 + 1, c.1)
    }
}

/// From position `ax` on there is no help flag, every proxy flag is followed
/// by a URL with a host, and every other argument is a URL with a host.
pub open spec fn args_acceptable(args: Seq<Seq<char>>, argc: int, ax: int) -> bool
    decreases argc - ax,
{
    if ax >= argc || ax < 0 {
        true
    } else if is_help_flag(args[ax]) {
        false
    } else if is_proxy_flag(args[ax]) {
        argc > ax + 1 && url_has_host(args[ax + 1]) && args_acceptable(args, argc, ax + 2)
    } else {
        url_has_host(args[ax]) && args_acceptable(args, argc, ax + 1)
    }
}

/// The argument after the first proxy flag from position `ax` on, if any.
pub open spec fn given_proxy(args: Seq<Seq<char>>, argc: int, ax: int) -> Option<Seq<char>>
    decreases argc - ax,
{
    if ax >= argc || ax < 0 {
        None
    } else if is_help_flag(args[ax]) {
        given_proxy(args, argc, ax + 1)
    } else if is_proxy_flag(args[ax]) {
        if argc > ax + 1 {
            Some(args[ax + 1])
        } else {
            None
        }
    } else {
        given_proxy(args, argc, ax + 1)
    }
}

/// The first target URL from position `ax` on: the first argument that is
/// neither a flag nor the URL after a proxy flag.
pub open spec fn given_target(args: Seq<Seq<char>>, argc: int, ax: int) -> Option<Seq<char>>
    decreases argc - ax,
{
    if ax >= argc || ax < 0 {
        None
    } else if is_help_flag(args[ax]) {
        given_target(args, argc, ax + 1)
    } else if is_proxy_flag(args[ax]) {
        if argc > ax + 1 {
            given_target(args, argc, ax + 2)
        } else {
            None
        }
    } else {
        Some(args[ax])
    }
}

/// The settings hold, as the target's parts, what the URL `t` parses to: its
/// scheme, host, path, port (-1 when it gives none), its user name as given
/// whether or not it gives a password, and its password (empty when none).
pub open spec fn target_parts_from(st: SettingsView, t: Seq<char>) -> bool {
    &&& spec_url_parse(t) is Ok
    &&& st.dst_scheme == Some(spec_url_parse(t)->Ok_0.0)
    &&& st.dst_domain == spec_url_parse(t)->Ok_0.1
    &&& st.dst_path == Some(spec_url_parse(t)->Ok_0.2)
    &&& st.dst_port == url_port(t)
    &&& st.dst_userid == Some(spec_url_parse(t)->Ok_0.4)
    &&& st.dst_passwd == Some(
        match spec_url_parse(t)->Ok_0.5 {
            Some(w) => w,
            None => Seq::<char>::empty(),
        },
    )
}

/// The settings hold, as the proxy's parts, what the URL `u` parses to: its
/// scheme, host, path and port (-1 when it gives none).
pub open spec fn proxy_parts_from(st: SettingsView, u: Seq<char>) -> bool {
    &&& spec_url_parse(u) is Ok
    &&& st.proxy_url == Some(u)
    &&& st.pxy_scheme == Some(spec_url_parse(u)->Ok_0.0)
    &&& st.pxy_domain == spec_url_parse(u)->Ok_0.1
    &&& st.pxy_path == Some(spec_url_parse(u)->Ok_0.2)
    &&& st.pxy_port == url_port(u)
}

/// The target's parts are set all together or not at all, and so are the
/// proxy URL and the proxy's parts.
pub open spec fn settings_consistent(st: SettingsView) -> bool {
    &&& st.dst_domain is Some <==> st.dst_scheme is Some
    &&& st.dst_path is Some <==> st.dst_scheme is Some
    &&& st.dst_userid is Some <==> st.dst_scheme is Some
    &&& st.dst_passwd is Some <==> st.dst_scheme is Some
    &&& st.pxy_scheme is Some <==> st.proxy_url is Some
    &&& st.pxy_domain is Some <==> st.proxy_url is Some
    &&& st.pxy_path is Some <==> st.proxy_url is Some
}

/// What a reading that runs to the end without a stop leaves.
proof fn lemma_scan_finished(args: Seq<Seq<char>>, argc: int, ax: int, st: SettingsView)
    ensures
        ({
            let sc = scan_args(args, argc, ax, st);
            sc.stop is None && !sc.repeated && !sc.overrun ==> {
                &&& settings_consistent(st) ==> settings_consistent(sc.settings)
                &&& sc.settings.def_proxy_url == st.def_proxy_url
                &&& sc.settings.iam == st.iam
                &&& st.proxy_url is Some ==> given_proxy(args, argc, ax) is None
                &&& (sc.settings.dst_scheme is Some <==> st.dst_scheme is Some || url_counts(
                    args,
                    argc,
                    ax,
                ).0 >= 1)
                &&& sc.settings.proxy_url == match given_proxy(args, argc, ax) {
                    Some(u) => Some(u),
                    None => st.proxy_url,
                }
                &&& sc.settings.pxy_port == match given_proxy(args, argc, ax) {
                    Some(u) => url_port(u),
                    None => st.pxy_port,
                }
                &&& st.dst_scheme is Some ==> given_target(args, argc, ax) is None
                &&& given_proxy(args, argc, ax) matches Some(u) ==> proxy_parts_from(sc.settings, u)
                &&& given_proxy(args, argc, ax) is None ==> sc.settings.pxy_scheme == st.pxy_scheme
                    && sc.settings.pxy_domain == st.pxy_domain && sc.settings.pxy_path
                    == st.pxy_path
                &&& match given_target(args, argc, ax) {
                    Some(t) => target_parts_from(sc.settings, t),
                    None => {
                        &&& sc.settings.dst_scheme == st.dst_scheme
                        &&& sc.settings.dst_domain == st.dst_domain
                        &&& sc.settings.dst_path == st.dst_path
                        &&& sc.settings.dst_port == st.dst_port
                        &&& sc.settings.dst_userid == st.dst_userid
                        &&& sc.settings.dst_passwd == st.dst_passwd
                    },
                }
            }
        }),
    decreases argc - ax,
{
    if ax >= argc || ax < 0 || ax >= args.len() {
    } else {
        let arg = args[ax];
        if is_help_flag(arg) {
        } else if is_proxy_flag(arg) {
            if argc > ax + 1 && ax + 1 < args.len() {
                let url = args[ax + 1];
                if let Ok(parts) = spec_url_parse(url) {
                    if st.proxy_url is None && parts.1 is Some {
                        let st1 = SettingsView { proxy_url: Some(url), ..st };
                        lemma_scan_finished(args, argc, ax + 2, with_proxy_parts(st1, parts));
                    }
                }
            }
        } else {
            if let Ok(parts) = spec_url_parse(arg) {
                if parts.1 is Some && st.dst_scheme is None {
                    lemma_scan_finished(args, argc, ax + 1, with_target_parts(st, parts));
                }
            }
        }
    }
}

/// A reading that neither repeats nor overruns stops exactly when the
/// arguments are not acceptable.
proof fn lemma_scan_stops(args: Seq<Seq<char>>, argc: int, ax: int, st: SettingsView)
    ensures
        ({
            let sc = scan_args(args, argc, ax, st);
            !sc.repeated && !sc.overrun ==> (sc.stop is None <==> args_acceptable(args, argc, ax))
        }),
    decreases argc - ax,
{
    if ax >= argc || ax < 0 || ax >= args.len() {
    } else {
        let arg = args[ax];
        if is_help_flag(arg) {
        } else if is_proxy_flag(arg) {
            if argc > ax + 1 && ax + 1 < args.len() {
                let url = args[ax + 1];
                if let Ok(parts) = spec_url_parse(url) {
                    if st.proxy_url is None && parts.1 is Some {
                        let st1 = SettingsView { proxy_url: Some(url), ..st };
                        lemma_scan_stops(args, argc, ax + 2, with_proxy_parts(st1, parts));
                    }
                }
            }
        } else {
            if let Ok(parts) = spec_url_parse(arg) {
                if parts.1 is Some && st.dst_scheme is None {
                    lemma_scan_stops(args, argc, ax + 1, with_target_parts(st, parts));
                }
            }
        }
    }
}

/// With every argument present and at most one target URL and one proxy
/// flag still to come (none where one is already set), a reading neither
/// repeats nor overruns.
proof fn lemma_scan_single(args: Seq<Seq<char>>, argc: int, ax: int, st: SettingsView)
    requires
        argc <= args.len(),
        url_counts(args, argc, ax).0 <= 1,
        url_counts(args, argc, ax).1 <= 1,
        st.dst_scheme is Some ==> url_counts(args, argc, ax).0 == 0,
        st.proxy_url is Some ==> url_counts(args, argc, ax).1 == 0,
    ensures
        !scan_args(args, argc, ax, st).repeated,
        !scan_args(args, argc, ax, st).overrun,
    decreases argc - ax,
{
    if ax >= argc || ax < 0 {
    } else {
        let arg = args[ax];
        if is_help_flag(arg) {
        } else if is_proxy_flag(arg) {
            if argc > ax + 1 {
                let url = args[ax + 1];
                if let Ok(parts) = spec_url_parse(url) {
                    if st.proxy_url is None && parts.1 is Some {
                        let st1 = SettingsView { proxy_url: Some(url), ..st };
                        lemma_scan_single(args, argc, ax + 2, with_proxy_parts(st1, parts));
                    }
                }
            }
        } else {
            if let Ok(parts) = spec_url_parse(arg) {
                if parts.1 is Some && st.dst_scheme is None {
                    lemma_scan_single(args, argc, ax + 1, with_target_parts(st, parts));
                }
            }
        }
    }
}

/// A command line is accepted exactly when there is an argument after the
/// program's name, no help flag is read, every URL read parses with a host,
/// every proxy flag has its URL, and a target URL is given.
pub proof fn law_accepted_iff(iam: Seq<char>, argc: int, args: Seq<Seq<char>>)
    requires
        !argv_scan_fails(argc, args),
    ensures
        argv_outcome(iam, argc, args).stop is None <==> argc >= 2 && args_acceptable(args, argc, 1)
            && url_counts(args, argc, 1).0 >= 1,
{
    if argc >= 2 {
        lemma_scan_stops(args, argc, 1, base_settings());
        lemma_scan_finished(args, argc, 1, base_settings());
    }
}

/// An accepted command line leaves consistent settings that hold a target
/// and all that planning the request reads; the program's name is kept; the
/// target's parts, user name and password included, are what its target URL
/// parses to; the proxy URL is the one given after the proxy flag, else the
/// empty default, and the proxy's port is the port that URL gives, else -1.
pub proof fn law_accepted_settings(iam: Seq<char>, argc: int, args: Seq<Seq<char>>)
    requires
        !argv_scan_fails(argc, args),
        argv_outcome(iam, argc, args).stop is None,
    ensures
        ({
            let st = argv_outcome(iam, argc, args).settings;
            &&& settings_consistent(st)
            &&& st.iam == Some(iam)
            &&& st.dst_scheme is Some
            &&& plannable(st)
            &&& st.def_proxy_url == Some(Seq::<char>::empty())
            &&& proxy_text(st) == match given_proxy(args, argc, 1) {
                Some(u) => u,
                None => Seq::<char>::empty(),
            }
            &&& st.pxy_port == match given_proxy(args, argc, 1) {
                Some(u) => url_port(u),
                None => -1i32,
            }
            &&& given_target(args, argc, 1) is Some
            &&& target_parts_from(st, given_target(args, argc, 1)->Some_0)
            &&& given_proxy(args, argc, 1) matches Some(u) ==> proxy_parts_from(st, u)
        }),
{
    lemma_scan_finished(args, argc, 1, base_settings());
}

/// A command line with every counted argument present, at most one target
/// URL and at most one proxy flag can always be read.
pub proof fn law_single_urls_read(argc: int, args: Seq<Seq<char>>)
    requires
        1 <= args.len(),
        argc <= args.len(),
        url_counts(args, argc, 1).0 <= 1,
        url_counts(args, argc, 1).1 <= 1,
    ensures
        !argv_fails(argc, args),
{
    lemma_scan_single(args, argc, 1, base_settings());
}

} // verus!
