//! The command line: a target URL, an optional `--proxy` URL, and `-h`/`--help`.
use vstd::prelude::*;
use crate::text::text_eq;
use vstd::string::StringExecFns;

pub mod get;
pub mod laws;

verus! {

/// The parts of a URL that the command line keeps, as `url::Url::parse` gives
/// them: scheme, host (as text), path, port, user name and password.
pub uninterp spec fn spec_url_parse(text: Seq<char>) -> Result<
    (Seq<char>, Option<Seq<char>>, Seq<char>, Option<u16>, Seq<char>, Option<Seq<char>>),
    Seq<char>,
>;

/// The view of an optional text.
pub open spec fn opt_view(o: Option<String>) -> Option<Seq<char>> {
    match o {
        Some(s) => Some(s@),
        None => None,
    }
}

/// The parts of a parsed absolute URL.
pub struct UrlParts {
    pub scheme: String,
    pub host: Option<String>,
    pub path: String,
    pub port: Option<u16>,
    pub username: String,
    pub password: Option<String>,
}

impl View for UrlParts {
    type V = (Seq<char>, Option<Seq<char>>, Seq<char>, Option<u16>, Seq<char>, Option<Seq<char>>);

    open spec fn view(&self) -> Self::V {
        (
            self.scheme@,
            opt_view(self.host),
            self.path@,
            self.port,
            self.username@,
            opt_view(self.password),
        )
    }
}

/// The view of what `parse_url` returns.
pub open spec fn url_result_view(r: Result<UrlParts, String>) -> Result<
    (Seq<char>, Option<Seq<char>>, Seq<char>, Option<u16>, Seq<char>, Option<Seq<char>>),
    Seq<char>,
> {
    match r {
        Ok(p) => Ok(p@),
        Err(m) => Err(m@),
    }
}

/// `url::Url::parse` on `text`, read through the URL's `scheme`, `host`
/// (shown with its `Display`), `path`, `port`, `username` and `password`; or
/// the `Display` text of the parse error. The contract names the result
/// (`spec_url_parse`) and says nothing more of it: the URL standard that the
/// crate follows is not restated here.
#[verifier::external_body]
fn parse_url(text: &str) -> (r: Result<UrlParts, String>)
    ensures
        url_result_view(r) == spec_url_parse(text@),
{
    match url::Url::parse(text) {
        Ok(u) => Ok(UrlParts {
            scheme: u.scheme().to_string(),
            host: u.host().map(|h| h.to_string()),
            path: u.path().to_string(),
            port: u.port(),
            username: u.username().to_string(),
            password: u.password().map(|p| p.to_string()),
        }),
        Err(e) => Err(e.to_string()),
    }
}


/// What the command line set: the program's name, the parts of the target
/// URL, and the proxy URL with its parts. A text that was never set is `None`;
/// a port that was never set, or that the URL did not give, is -1.
pub struct Settings {
    pub iam: Option<String>,
    pub dst_scheme: Option<String>,
    pub dst_domain: Option<String>,
    pub dst_path: Option<String>,
    pub dst_port: i32,
    pub dst_userid: Option<String>,
    pub dst_passwd: Option<String>,
    pub proxy_url: Option<String>,
    pub def_proxy_url: Option<String>,
    pub pxy_scheme: Option<String>,
    pub pxy_domain: Option<String>,
    pub pxy_path: Option<String>,
    pub pxy_port: i32,
}

/// The view of `Settings`.
pub struct SettingsView {
    pub iam: Option<Seq<char>>,
    pub dst_scheme: Option<Seq<char>>,
    pub dst_domain: Option<Seq<char>>,
    pub dst_path: Option<Seq<char>>,
    pub dst_port: i32,
    pub dst_userid: Option<Seq<char>>,
    pub dst_passwd: Option<Seq<char>>,
    pub proxy_url: Option<Seq<char>>,
    pub def_proxy_url: Option<Seq<char>>,
    pub pxy_scheme: Option<Seq<char>>,
    pub pxy_domain: Option<Seq<char>>,
    pub pxy_path: Option<Seq<char>>,
    pub pxy_port: i32,
}

impl View for Settings {
    type V = SettingsView;

    open spec fn view(&self) -> SettingsView {
        SettingsView {
            iam: opt_view(self.iam),
            dst_scheme: opt_view(self.dst_scheme),
            dst_domain: opt_view(self.dst_domain),
            dst_path: opt_view(self.dst_path),
            dst_port: self.dst_port,
            dst_userid: opt_view(self.dst_userid),
            dst_passwd: opt_view(self.dst_passwd),
            proxy_url: opt_view(self.proxy_url),
            def_proxy_url: opt_view(self.def_proxy_url),
            pxy_scheme: opt_view(self.pxy_scheme),
            pxy_domain: opt_view(self.pxy_domain),
            pxy_path: opt_view(self.pxy_path),
            pxy_port: self.pxy_port,
        }
    }
}

/// Nothing set yet.
pub open spec fn unset_settings() -> SettingsView {
    SettingsView {
        iam: None,
        dst_scheme: None,
        dst_domain: None,
        dst_path: None,
        dst_port: -1i32,
        dst_userid: None,
        dst_passwd: None,
        proxy_url: None,
        def_proxy_url: None,
        pxy_scheme: None,
        pxy_domain: None,
        pxy_path: None,
        pxy_port: -1i32,
    }
}

impl Settings {
    /// Nothing set yet.
    pub fn new() -> (s: Settings)
        ensures
            s@ == unset_settings(),
    {
        Settings {
            iam: None,
            dst_scheme: None,
            dst_domain: None,
            dst_path: None,
            dst_port: -1,
            dst_userid: None,
            dst_passwd: None,
            proxy_url: None,
            def_proxy_url: None,
            pxy_scheme: None,
            pxy_domain: None,
            pxy_path: None,
            pxy_port: -1,
        }
    }
}

/// Why the command line does not lead to a request.
pub enum ArgvStop {
    /// The first argument names no program.
    NoProgramName,
    /// No argument follows the program's name.
    TooFewArgs,
    /// `-h` or `--help` was given.
    Help,
    /// `-p`/`--proxy` is the last argument.
    MissingProxyUrl,
    /// The proxy URL does not parse; the parser's message.
    IllegalProxyUrl(String),
    /// The proxy URL has no host.
    ProxyHostError,
    /// The target URL does not parse; the parser's message.
    UrlParseError(String),
    /// The target URL has no host.
    UrlHostError,
    /// The arguments were read to the end and named no target URL.
    MissingTarget,
}

/// The view of `ArgvStop`.
pub enum ArgvStopView {
    NoProgramName,
    TooFewArgs,
    Help,
    MissingProxyUrl,
    IllegalProxyUrl(Seq<char>),
    ProxyHostError,
    UrlParseError(Seq<char>),
    UrlHostError,
    MissingTarget,
}

impl View for ArgvStop {
    type V = ArgvStopView;

    open spec fn view(&self) -> ArgvStopView {
        match self {
            ArgvStop::NoProgramName => ArgvStopView::NoProgramName,
            ArgvStop::TooFewArgs => ArgvStopView::TooFewArgs,
            ArgvStop::Help => ArgvStopView::Help,
            ArgvStop::MissingProxyUrl => ArgvStopView::MissingProxyUrl,
            ArgvStop::IllegalProxyUrl(m) => ArgvStopView::IllegalProxyUrl(m@),
            ArgvStop::ProxyHostError => ArgvStopView::ProxyHostError,
            ArgvStop::UrlParseError(m) => ArgvStopView::UrlParseError(m@),
            ArgvStop::UrlHostError => ArgvStopView::UrlHostError,
            ArgvStop::MissingTarget => ArgvStopView::MissingTarget,
        }
    }
}

/// Where reading the arguments ends: the settings made and why it stopped if
/// it did. `repeated`: it came to set the target URL or the proxy URL a second
/// time, which the settings cannot hold; `overrun`: it came to read past the
/// end of the argument list, because `argc` counts more arguments than there are.
pub struct ScanView {
    pub settings: SettingsView,
    pub stop: Option<ArgvStopView>,
    pub repeated: bool,
    pub overrun: bool,
}

/// The texts of the arguments.
pub open spec fn args_view(argv: Seq<String>) -> Seq<Seq<char>> {
    argv.map_values(|s: String| s@)
}

/// `st` with the proxy's parts set from a parsed proxy URL.
pub open spec fn with_proxy_parts(
    st: SettingsView,
    parts: (Seq<char>, Option<Seq<char>>, Seq<char>, Option<u16>, Seq<char>, Option<Seq<char>>),
) -> SettingsView {
    SettingsView {
        pxy_scheme: Some(parts.0),
        pxy_domain: parts.1,
        pxy_path: Some(parts.2),
        pxy_port: match parts.3 {
            Some(p) => p as i32,
            None => -1i32,
        },
        ..st
    }
}

/// `st` with the target's parts set from a parsed target URL; a missing
/// password is the empty text.
pub open spec fn with_target_parts(
    st: SettingsView,
    parts: (Seq<char>, Option<Seq<char>>, Seq<char>, Option<u16>, Seq<char>, Option<Seq<char>>),
) -> SettingsView {
    SettingsView {
        dst_scheme: Some(parts.0),
        dst_domain: parts.1,
        dst_path: Some(parts.2),
        dst_port: match parts.3 {
            Some(p) => p as i32,
            None => -1i32,
        },
        dst_userid: Some(parts.4),
        dst_passwd: Some(
            match parts.5 {
                Some(w) => w,
                None => Seq::empty(),
            },
        ),
        ..st
    }
}

/// A stop with the settings made so far.
pub open spec fn stopped(st: SettingsView, why: ArgvStopView) -> ScanView {
    ScanView { settings: st, stop: Some(why), repeated: false, overrun: false }
}

/// Read to the end with the settings made.
pub open spec fn finished(st: SettingsView) -> ScanView {
    ScanView { settings: st, stop: None, repeated: false, overrun: false }
}

/// `-h` or `--help`.
pub open spec fn is_help_flag(arg: Seq<char>) -> bool {
    arg == "--help"@ || arg == "-h"@
}

/// `-p` or `--proxy`, the flag before the proxy URL.
pub open spec fn is_proxy_flag(arg: Seq<char>) -> bool {
    arg == "--proxy"@ || arg == "-p"@
}

/// Reading the arguments from position `ax` below `argc` on, with `st` set so
/// far: `-h`/`--help` stops; `-p`/`--proxy` takes the next argument as the
/// proxy URL (the URL itself is kept as soon as it parses); any other argument
/// is the target URL. A URL that does not parse, or that has no host, stops.
pub open spec fn scan_args(args: Seq<Seq<char>>, argc: int, ax: int, st: SettingsView) -> ScanView
    decreases argc - ax,
{
    if ax >= argc || ax < 0 {
        finished(st)
    } else if ax >= args.len() {
        ScanView { settings: st, stop: None, repeated: false, overrun: true }
    } else {
        let arg = args[ax];
        if is_help_flag(arg) {
            stopped(st, ArgvStopView::Help)
        } else if is_proxy_flag(arg) {
            if argc <= ax + 1 {
                stopped(st, ArgvStopView::MissingProxyUrl)
            } else if ax + 1 >= args.len() {
                ScanView { settings: st, stop: None, repeated: false, overrun: true }
            } else {
                let url = args[ax + 1];
                match spec_url_parse(url) {
                    Err(m) => stopped(st, ArgvStopView::IllegalProxyUrl(m)),
                    Ok(parts) => if st.proxy_url is Some {
                        ScanView { settings: st, stop: None, repeated: true, overrun: false }
                    } else {
                        let st1 = SettingsView { proxy_url: Some(url), ..st };
                        if parts.1 is None {
                            stopped(st1, ArgvStopView::ProxyHostError)
                        } else {
                            scan_args(args, argc, ax + 2, with_proxy_parts(st1, parts))
                        }
                    },
                }
            }
        } else {
            match spec_url_parse(arg) {
                Err(m) => stopped(st, ArgvStopView::UrlParseError(m)),
                Ok(parts) => if parts.1 is None {
                    stopped(st, ArgvStopView::UrlHostError)
                } else if st.dst_scheme is Some {
                    ScanView { settings: st, stop: None, repeated: true, overrun: false }
                } else {
                    scan_args(args, argc, ax + 1, with_target_parts(st, parts))
                },
            }
        }
    }
}

/// How reading the arguments ended.
enum ScanEnd {
    Done,
    Stopped(ArgvStop),
    Fails,
}

/// Reads the arguments `argv[1..argc]` into `settings`, as `scan_args` says;
/// `Fails` where `scan_args` sets a URL twice or reads past the arguments.
fn scan_argv(argc: usize, argv: &Vec<String>, settings: &mut Settings) -> (end: ScanEnd)
    requires
        1 <= argc,
    ensures
        ({
            let sc = scan_args(args_view(argv@), argc as int, 1, old(settings)@);
            &&& sc.repeated || sc.overrun <==> end is Fails
            &&& !(sc.repeated || sc.overrun) ==> final(settings)@ == sc.settings
            &&& end is Done ==> sc.stop is None
            &&& end matches ScanEnd::Stopped(w) ==> sc.stop == Some(w@)
            &&& !(end matches ScanEnd::Stopped(ArgvStop::NoProgramName))
        }),
{
    let ghost args = args_view(argv@);
    let ghost whole = scan_args(args, argc as int, 1, settings@);
    let mut ax: usize = 1;
    while ax < argc
        invariant
            1 <= ax <= argc,
            args == args_view(argv@),
            whole == scan_args(args, argc as int, 1, old(settings)@),
            whole == scan_args(args, argc as int, ax as int, settings@),
        decreases argc - ax,
    {
        if ax >= argv.len() {
            return ScanEnd::Fails;
        }
        let arg = argv[ax].as_str();
        assert(args[ax as int] == arg@);
        if text_eq(arg, "--help") || text_eq(arg, "-h") {
            return ScanEnd::Stopped(ArgvStop::Help);
        } else if text_eq(arg, "--proxy") || text_eq(arg, "-p") {
            ax = ax + 1;
            if argc <= ax {
                return ScanEnd::Stopped(ArgvStop::MissingProxyUrl);
            }
            if ax >= argv.len() {
                return ScanEnd::Fails;
            }
            assert(args[ax as int] == argv@[ax as int]@);
            let proxy = match parse_url(argv[ax].as_str()) {
                Ok(v) => v,
                Err(e) => {
                    return ScanEnd::Stopped(ArgvStop::IllegalProxyUrl(e));
                },
            };
            if settings.proxy_url.is_some() {
                return ScanEnd::Fails;
            }
            settings.proxy_url = Some(argv[ax].clone());
            let UrlParts { scheme, host, path, port, username, password } = proxy;
            let pxyhost = match host {
                Some(v) => v,
                None => {
                    return ScanEnd::Stopped(ArgvStop::ProxyHostError);
                },
            };
            let pxyport: i32 = match port {
                Some(v) => v as i32,
                None => -1,
            };
            settings.pxy_scheme = Some(scheme);
            settings.pxy_domain = Some(pxyhost);
            settings.pxy_path = Some(path);
            settings.pxy_port = pxyport;
        } else {
            let dsturl = match parse_url(arg) {
                Ok(v) => v,
                Err(e) => {
                    return ScanEnd::Stopped(ArgvStop::UrlParseError(e));
                },
            };
            let UrlParts { scheme, host, path, port, username, password } = dsturl;
            let dsthost = match host {
                Some(v) => v,
                None => {
                    return ScanEnd::Stopped(ArgvStop::UrlHostError);
                },
            };
            let dstport: i32 = match port {
                Some(v) => v as i32,
                None => -1,
            };
            let dstpasswd = match password {
                Some(v) => v,
                None => String::new(),
            };
            if settings.dst_scheme.is_some() {
                return ScanEnd::Fails;
            }
            settings.dst_scheme = Some(scheme);
            settings.dst_domain = Some(dsthost);
            settings.dst_path = Some(path);
            settings.dst_port = dstport;
            settings.dst_userid = Some(username);
            settings.dst_passwd = Some(dstpasswd);
        }
        ax = ax + 1;
    }
    ScanEnd::Done
}

/// What reading the command line made.
pub struct ArgvParse {
    pub settings: Settings,
    pub stop: Option<ArgvStop>,
}

impl ArgvParse {
    /// Whether the command line leads to a request.
    pub fn accepted(&self) -> (ok: bool)
        ensures
            ok == self.stop is None,
    {
        self.stop.is_none()
    }
}

/// The view of an optional stop.
pub open spec fn stop_view(o: Option<ArgvStop>) -> Option<ArgvStopView> {
    match o {
        Some(w) => Some(w@),
        None => None,
    }
}

/// The settings in which the arguments are read: the default proxy URL is
/// the empty text.
pub open spec fn base_settings() -> SettingsView {
    SettingsView { def_proxy_url: Some(Seq::empty()), ..unset_settings() }
}

/// What reading `argc` arguments gives once the program is known as `iam`:
/// with no argument after the program's name it stops at once; else the
/// arguments are read from the second on, and reading them to the end without
/// a target URL stops for want of one.
pub open spec fn argv_outcome(iam: Seq<char>, argc: int, args: Seq<Seq<char>>) -> ScanView {
    if argc < 2 {
        stopped(SettingsView { iam: Some(iam), ..unset_settings() }, ArgvStopView::TooFewArgs)
    } else {
        let sc = scan_args(args, argc, 1, base_settings());
        let st = SettingsView { iam: Some(iam), ..sc.settings };
        if sc.stop is None && !sc.repeated && !sc.overrun && sc.settings.dst_scheme is None {
            stopped(st, ArgvStopView::MissingTarget)
        } else {
            ScanView { settings: st, ..sc }
        }
    }
}

/// What reading the command line gives for the program's name as found in
/// the first argument: nothing set when there is none.
pub open spec fn named_outcome(name: Option<Seq<char>>, argc: int, args: Seq<Seq<char>>) -> ScanView {
    match name {
        None => stopped(unset_settings(), ArgvStopView::NoProgramName),
        Some(iam) => argv_outcome(iam, argc, args),
    }
}

/// Reading the arguments after the first would set the target URL or the
/// proxy URL twice, or read past the arguments given.
pub open spec fn argv_scan_fails(argc: int, args: Seq<Seq<char>>) -> bool {
    argc >= 2 && (scan_args(args, argc, 1, base_settings()).repeated || scan_args(
        args,
        argc,
        1,
        base_settings(),
    ).overrun)
}

/// The command line cannot be read: it has no first argument, or reading the
/// others fails as `argv_scan_fails` says.
pub open spec fn argv_fails(argc: int, args: Seq<Seq<char>>) -> bool {
    args.len() == 0 || argv_scan_fails(argc, args)
}

/// A non-empty text of ASCII letters, digits, `-` and `_`: a path of a single
/// plain component on every platform.
pub open spec fn plain_word(s: Seq<char>) -> bool {
    &&& s.len() > 0
    &&& forall|i: int|
        0 <= i < s.len() ==> {
            let c = #[trigger] s[i];
            ('a' <= c <= 'z') || ('A' <= c <= 'Z') || ('0' <= c <= '9') || c == '-' || c == '_'
        }
}

/// The text after the last `/` (all of it when there is none).
pub open spec fn final_segment(s: Seq<char>) -> Seq<char>
    decreases s.len(),
{
    if s.len() == 0 || s.last() == '/' {
        Seq::empty()
    } else {
        final_segment(s.drop_last()).push(s.last())
    }
}

/// A character that every platform reads the same way in a path: a letter,
/// a digit, `-`, `_`, `.` or the separator `/`.
pub open spec fn path_char(c: char) -> bool {
    ('a' <= c <= 'z') || ('A' <= c <= 'Z') || ('0' <= c <= '9') || c == '-' || c == '_' || c
        == '.' || c == '/'
}

/// A path that splits into components the same way on every platform, and
/// whose last component is a plain word: made of `path_char`s, not starting
/// with `//` (a network prefix on some platforms), ending in a plain word.
pub open spec fn plain_path(s: Seq<char>) -> bool {
    &&& forall|i: int| 0 <= i < s.len() ==> path_char(#[trigger] s[i])
    &&& !(s.len() >= 2 && s[0] == '/' && s[1] == '/')
    &&& plain_word(final_segment(s))
}

/// `std::path::Path::file_name` of the first argument, as text: the final
/// component of the path. The empty path and `/` have none; a plain path, whose
/// components are separated by `/` on every platform, has the plain word after
/// its last `/`. Nothing more is stated, as how other paths split into
/// components depends on the platform.
#[verifier::external_body]
fn program_name(arg0: &str) -> (name: Option<String>)
    ensures
        arg0@.len() == 0 || arg0@ == "/"@ ==> name is None,
        plain_path(arg0@) ==> opt_view(name) == Some(final_segment(arg0@)),
{
    std::path::Path::new(arg0).file_name().and_then(|n| n.to_str()).map(|n| n.to_string())
}

/// The settings in which the arguments are read.
fn base_settings_exec() -> (s: Settings)
    ensures
        s@ == base_settings(),
{
    let mut s = Settings::new();
    s.def_proxy_url = Some(String::new());
    s
}

/// Reads the command line of the program known as `iam`, as `argv_outcome` says.
pub fn parse_args_as(iam: String, argc: usize, argv: &Vec<String>) -> (r: ArgvParse)
    requires
        !argv_scan_fails(argc as int, args_view(argv@)),
    ensures
        r.settings@ == argv_outcome(iam@, argc as int, args_view(argv@)).settings,
        stop_view(r.stop) == argv_outcome(iam@, argc as int, args_view(argv@)).stop,
{
    if argc < 2 {
        let mut settings = Settings::new();
        settings.iam = Some(iam);
        return ArgvParse { settings, stop: Some(ArgvStop::TooFewArgs) };
    }
    let mut settings = base_settings_exec();
    let end = scan_argv(argc, argv, &mut settings);
    let stop = match end {
        ScanEnd::Stopped(w) => Some(w),
        _ => if settings.dst_scheme.is_none() {
            Some(ArgvStop::MissingTarget)
        } else {
            None
        },
    };
    settings.iam = Some(iam);
    ArgvParse { settings, stop }
}

/// Reads the command line once the program's name has been looked for in the
/// first argument, as `named_outcome` says.
pub fn parse_named(name: Option<String>, argc: usize, argv: &Vec<String>) -> (r: ArgvParse)
    requires
        !argv_scan_fails(argc as int, args_view(argv@)),
    ensures
        r.settings@ == named_outcome(opt_view(name), argc as int, args_view(argv@)).settings,
        stop_view(r.stop) == named_outcome(opt_view(name), argc as int, args_view(argv@)).stop,
{
    match name {
        Some(iam) => parse_args_as(iam, argc, argv),
        None => ArgvParse { settings: Settings::new(), stop: Some(ArgvStop::NoProgramName) },
    }
}

/// Reads the command line `argv`, of which the first `argc` arguments count:
/// the program's name, then the target URL, `-p`/`--proxy` with the proxy URL,
/// or `-h`/`--help`. The settings record the program's name found (none when
/// the first argument names no program), and the outcome is `named_outcome`
/// for it; for a plain path the name is the word after its last `/`.
pub fn parse_argv(argc: usize, argv: Vec<String>) -> (r: ArgvParse)
    requires
        !argv_fails(argc as int, args_view(argv@)),
    ensures
        r.settings@ == named_outcome(r.settings@.iam, argc as int, args_view(argv@)).settings,
        stop_view(r.stop) == named_outcome(r.settings@.iam, argc as int, args_view(argv@)).stop,
        argv@[0]@.len() == 0 || argv@[0]@ == "/"@ ==> r.settings@.iam is None,
        plain_path(argv@[0]@) ==> r.settings@.iam == Some(final_segment(argv@[0]@)),
{
    let name = program_name(argv[0].as_str());
    let ghost found = opt_view(name);
    let r = parse_named(name, argc, &argv);
    assert(r.settings@.iam == found);
    r
}

/// Reads the command line as `parse_argv` does, where that can be done:
/// `None` exactly when it cannot (`argv_fails`).
pub fn try_parse_argv(argc: usize, argv: Vec<String>) -> (r: Option<ArgvParse>)
    ensures
        r is None <==> argv_fails(argc as int, args_view(argv@)),
        r matches Some(p) ==> {
            &&& p.settings@ == named_outcome(p.settings@.iam, argc as int, args_view(argv@)).settings
            &&& stop_view(p.stop) == named_outcome(
                p.settings@.iam,
                argc as int,
                args_view(argv@),
            ).stop
            &&& argv@[0]@.len() == 0 || argv@[0]@ == "/"@ ==> p.settings@.iam is None
            &&& plain_path(argv@[0]@) ==> p.settings@.iam == Some(final_segment(argv@[0]@))
        },
{
    if argv.len() == 0 {
        return None;
    }
    if argc >= 2 {
        let mut scratch = base_settings_exec();
        let end = scan_argv(argc, &argv, &mut scratch);
        if let ScanEnd::Fails = end {
            return None;
        }
    }
    Some(parse_argv(argc, argv))
}

/// The usage line of the program known by `settings.iam`.
pub open spec fn usage_text_of(iam: Seq<char>) -> Seq<char> {
    iam + " <targetURL> [{-p|--proxy} <proxyURL>] [-h|--help]"@
}

/// The usage line.
pub fn usage_text(settings: &Settings) -> (text: String)
    requires
        settings.iam is Some,
    ensures
        text@ == usage_text_of(settings@.iam->Some_0),
{
    let mut text = settings.iam.as_ref().unwrap().clone();
    text.append(" <targetURL> [{-p|--proxy} <proxyURL>] [-h|--help]");
    text
}

} // verus!
