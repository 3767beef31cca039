//! What a request goes to, decided from the settings of the command line.
use vstd::prelude::*;
use vstd::string::StringExecFns;
use crate::help::{Settings, SettingsView};
use crate::help::get;
use crate::text::{text_eq, int_text, decimal_text};

verus! {

/// The port to use: the given one, or for none given (a negative value) the
/// default port of `http` (80) or `https` (443); none for another scheme.
pub open spec fn spec_resolve_port(port: i32, scheme: Seq<char>) -> Option<i32> {
    if port < 0 {
        if scheme == "http"@ {
            Some(80i32)
        } else if scheme == "https"@ {
            Some(443i32)
        } else {
            None
        }
    } else {
        Some(port)
    }
}

/// The port to use, as `spec_resolve_port` says.
pub fn resolve_port(port: i32, scheme: &str) -> (r: Option<i32>)
    ensures
        r == spec_resolve_port(port, scheme@),
{
    if port < 0 {
        if text_eq(scheme, "http") {
            Some(80)
        } else if text_eq(scheme, "https") {
            Some(443)
        } else {
            None
        }
    } else {
        Some(port)
    }
}

/// `scheme://domain:port` followed by the path.
pub open spec fn url_text_of(scheme: Seq<char>, domain: Seq<char>, port: i32, path: Seq<char>) -> Seq<
    char,
> {
    scheme + "://"@ + domain + ":"@ + decimal_text(port as int) + path
}

/// The URL text `scheme://domain:port` followed by the path.
pub fn url_text(scheme: &str, domain: &str, port: i32, path: &str) -> (text: String)
    ensures
        text@ == url_text_of(scheme@, domain@, port, path@),
{
    let mut text = String::from_str(scheme);
    text.append("://");
    text.append(domain);
    text.append(":");
    let digits = int_text(port);
    text.append(digits.as_str());
    text.append(path);
    text
}

/// Where a request goes and what it asks for: the server to connect to, the
/// host and path that the request names, the credentials, the full URL of the
/// target, and the full URL of the proxy when the request goes through one.
pub struct RequestPlan {
    pub connect_host: String,
    pub connect_port: i32,
    pub host: String,
    pub path: String,
    pub userid: String,
    pub passwd: String,
    pub target_url: String,
    pub proxy_target: Option<String>,
}

/// The view of `RequestPlan`.
pub struct RequestPlanView {
    pub connect_host: Seq<char>,
    pub connect_port: i32,
    pub host: Seq<char>,
    pub path: Seq<char>,
    pub userid: Seq<char>,
    pub passwd: Seq<char>,
    pub target_url: Seq<char>,
    pub proxy_target: Option<Seq<char>>,
}

impl View for RequestPlan {
    type V = RequestPlanView;

    open spec fn view(&self) -> RequestPlanView {
        RequestPlanView {
            connect_host: self.connect_host@,
            connect_port: self.connect_port,
            host: self.host@,
            path: self.path@,
            userid: self.userid@,
            passwd: self.passwd@,
            target_url: self.target_url@,
            proxy_target: match self.proxy_target {
                Some(t) => Some(t@),
                None => None,
            },
        }
    }
}

/// The settings hold what a plan reads: the target's parts, a proxy URL or
/// the default one, and the proxy's parts when the proxy URL is not empty.
pub open spec fn plannable(st: SettingsView) -> bool {
    &&& st.dst_scheme is Some
    &&& st.dst_domain is Some
    &&& st.dst_path is Some
    &&& st.dst_userid is Some
    &&& st.dst_passwd is Some
    &&& st.proxy_url is Some || st.def_proxy_url is Some
    &&& proxy_text(st).len() > 0 ==> {
        &&& st.pxy_scheme is Some
        &&& st.pxy_domain is Some
        &&& st.pxy_path is Some
    }
}

/// The proxy URL as given, else the default one.
pub open spec fn proxy_text(st: SettingsView) -> Seq<char> {
    match st.proxy_url {
        Some(u) => u,
        None => st.def_proxy_url->Some_0,
    }
}

/// The plan for the settings: the target's port is resolved from its scheme
/// (none for an unknown scheme); an empty path asks for `/index.html`. With a
/// proxy URL, the request goes to the proxy (its port resolved the same way)
/// and asks for the target's full URL; without, it goes to the target.
pub open spec fn spec_plan(st: SettingsView) -> Option<RequestPlanView> {
    let scheme = st.dst_scheme->Some_0;
    let domain = st.dst_domain->Some_0;
    let prmpath = st.dst_path->Some_0;
    let dstpath = if prmpath.len() != 0 {
        prmpath
    } else {
        "/index.html"@
    };
    match spec_resolve_port(st.dst_port, scheme) {
        None => None,
        Some(dstport) => {
            let getpath = url_text_of(scheme, domain, dstport, prmpath);
            if proxy_text(st).len() > 0 {
                match spec_resolve_port(st.pxy_port, st.pxy_scheme->Some_0) {
                    None => None,
                    Some(proxyport) => Some(
                        RequestPlanView {
                            connect_host: st.pxy_domain->Some_0,
                            connect_port: proxyport,
                            host: domain,
                            path: getpath,
                            userid: st.dst_userid->Some_0,
                            passwd: st.dst_passwd->Some_0,
                            target_url: getpath,
                            proxy_target: Some(
                                url_text_of(
                                    st.pxy_scheme->Some_0,
                                    st.pxy_domain->Some_0,
                                    proxyport,
                                    st.pxy_path->Some_0,
                                ),
                            ),
                        },
                    ),
                }
            } else {
                Some(
                    RequestPlanView {
                        connect_host: domain,
                        connect_port: dstport,
                        host: domain,
                        path: dstpath,
                        userid: st.dst_userid->Some_0,
                        passwd: st.dst_passwd->Some_0,
                        target_url: getpath,
                        proxy_target: None,
                    },
                )
            }
        },
    }
}


/// The plan for the settings, as `spec_plan` says; `None` where a port cannot
/// be resolved.
pub fn plan_request(settings: &Settings) -> (plan: Option<RequestPlan>)
    requires
        plannable(settings@),
    ensures
        match plan {
            Some(p) => spec_plan(settings@) == Some(p@),
            None => spec_plan(settings@) is None,
        },
{
    let prmscheme = get::scheme(settings);
    let prmdomain = get::domain(settings);
    let prmpath = get::path(settings);
    let prmuserid = get::userid(settings);
    let prmpasswd = get::passwd(settings);
    let dstpath = if !prmpath.as_str().is_empty() {
        prmpath.clone()
    } else {
        String::from_str("/index.html")
    };
    let dstport = match resolve_port(get::port(settings), prmscheme.as_str()) {
        Some(p) => p,
        None => {
            return None;
        },
    };
    let getpath = url_text(prmscheme.as_str(), prmdomain.as_str(), dstport, prmpath.as_str());
    let proxyurl = get::proxyurl(settings);
    if !proxyurl.as_str().is_empty() {
        let proxyscheme = get::proxyscheme(settings);
        let proxydomain = get::proxydomain(settings);
        let proxypath = get::proxypath(settings);
        let proxyport = match resolve_port(get::proxyport(settings), proxyscheme.as_str()) {
            Some(p) => p,
            None => {
                return None;
            },
        };
        let getproxypath = url_text(
            proxyscheme.as_str(),
            proxydomain.as_str(),
            proxyport,
            proxypath.as_str(),
        );
        Some(
            RequestPlan {
                connect_host: proxydomain.clone(),
                connect_port: proxyport,
                host: prmdomain.clone(),
                path: getpath.clone(),
                userid: prmuserid.clone(),
                passwd: prmpasswd.clone(),
                target_url: getpath,
                proxy_target: Some(getproxypath),
            },
        )
    } else {
        Some(
            RequestPlan {
                connect_host: prmdomain.clone(),
                connect_port: dstport,
                host: prmdomain.clone(),
                path: dstpath,
                userid: prmuserid.clone(),
                passwd: prmpasswd.clone(),
                target_url: getpath,
                proxy_target: None,
            },
        )
    }
}


/// The port that a URL without a port of its own defaults to: 80 for `http`,
/// 443 for `https`.
pub open spec fn default_port_of(scheme: Seq<char>) -> Option<i32> {
    if scheme == "http"@ {
        Some(80i32)
    } else if scheme == "https"@ {
        Some(443i32)
    } else {
        None
    }
}

/// A request can be planned exactly when the target's port is known (given,
/// or the default of its scheme) and, through a proxy, so is the proxy's.
pub proof fn law_plan_exists(st: SettingsView)
    requires
        plannable(st),
    ensures
        spec_plan(st) is Some <==> (st.dst_port >= 0 || default_port_of(st.dst_scheme->Some_0) is Some)
            && (proxy_text(st).len() > 0 ==> (st.pxy_port >= 0 || default_port_of(
            st.pxy_scheme->Some_0,
        ) is Some)),
{
}

/// Every plan names the target's host and carries the target URL's user name
/// and password, through a proxy or not; its target URL is the target's
/// scheme, host, port (given, else the scheme's default) and path.
pub proof fn law_plan_target(st: SettingsView)
    requires
        plannable(st),
        spec_plan(st) is Some,
    ensures
        ({
            let p = spec_plan(st)->Some_0;
            let port = if st.dst_port >= 0 {
                st.dst_port
            } else {
                default_port_of(st.dst_scheme->Some_0)->Some_0
            };
            &&& p.host == st.dst_domain->Some_0
            &&& p.userid == st.dst_userid->Some_0
            &&& p.passwd == st.dst_passwd->Some_0
            &&& p.target_url == st.dst_scheme->Some_0 + "://"@ + st.dst_domain->Some_0 + ":"@
                + decimal_text(port as int) + st.dst_path->Some_0
        }),
{
}

/// Without a proxy, the connection goes to the target's host on the port
/// its URL gives, and only when it gives none on the default port of its
/// scheme; the request asks for the target's path, `/index.html` when empty.
pub proof fn law_plan_direct(st: SettingsView)
    requires
        plannable(st),
        proxy_text(st).len() == 0,
        spec_plan(st) is Some,
    ensures
        ({
            let p = spec_plan(st)->Some_0;
            &&& p.connect_host == st.dst_domain->Some_0
            &&& st.dst_port >= 0 ==> p.connect_port == st.dst_port
            &&& st.dst_port < 0 && st.dst_scheme == Some("http"@) ==> p.connect_port == 80
            &&& st.dst_port < 0 && st.dst_scheme == Some("https"@) ==> p.connect_port == 443
            &&& st.dst_path->Some_0.len() > 0 ==> p.path == st.dst_path->Some_0
            &&& st.dst_path->Some_0.len() == 0 ==> p.path == "/index.html"@
            &&& p.proxy_target is None
        }),
{
    reveal_strlit("http");
    reveal_strlit("https");
    assert("http"@.len() != "https"@.len());
}

/// Through a proxy, the connection goes to the proxy's host on the port its
/// URL gives, and only when it gives none on the default port of the proxy
/// URL's own scheme, whatever the target's scheme; the request asks for the
/// target's full URL.
pub proof fn law_plan_proxy(st: SettingsView)
    requires
        plannable(st),
        proxy_text(st).len() > 0,
        spec_plan(st) is Some,
    ensures
        ({
            let p = spec_plan(st)->Some_0;
            &&& p.connect_host == st.pxy_domain->Some_0
            &&& st.pxy_port >= 0 ==> p.connect_port == st.pxy_port
            &&& st.pxy_port < 0 && st.pxy_scheme == Some("http"@) ==> p.connect_port == 80
            &&& st.pxy_port < 0 && st.pxy_scheme == Some("https"@) ==> p.connect_port == 443
            &&& p.path == p.target_url
            &&& p.proxy_target == Some(
                st.pxy_scheme->Some_0 + "://"@ + st.pxy_domain->Some_0 + ":"@ + decimal_text(
                    p.connect_port as int,
                ) + st.pxy_path->Some_0,
            )
        }),
{
    reveal_strlit("http");
    reveal_strlit("https");
    assert("http"@.len() != "https"@.len());
}

/// Through a proxy, where the connection goes does not depend on the
/// target's scheme or port.
pub proof fn law_plan_proxy_ignores_target_port(st1: SettingsView, st2: SettingsView)
    requires
        plannable(st1),
        plannable(st2),
        proxy_text(st1).len() > 0,
        st2 == (SettingsView { dst_scheme: st2.dst_scheme, dst_port: st2.dst_port, ..st1 }),
        spec_plan(st1) is Some,
        spec_plan(st2) is Some,
    ensures
        spec_plan(st1)->Some_0.connect_host == spec_plan(st2)->Some_0.connect_host,
        spec_plan(st1)->Some_0.connect_port == spec_plan(st2)->Some_0.connect_port,
        spec_plan(st1)->Some_0.proxy_target == spec_plan(st2)->Some_0.proxy_target,
{
}

} // verus!
