//! The settings that the command line gave.
use vstd::prelude::*;
use super::Settings;

verus! {

/// The target URL's scheme. It must have been set.
pub fn scheme(settings: &Settings) -> (value: &String)
    requires
        settings.dst_scheme is Some,
    ensures
        value@ == settings@.dst_scheme->Some_0,
{
    settings.dst_scheme.as_ref().unwrap()
}

/// The target URL's host. It must have been set.
pub fn domain(settings: &Settings) -> (value: &String)
    requires
        settings.dst_domain is Some,
    ensures
        value@ == settings@.dst_domain->Some_0,
{
    settings.dst_domain.as_ref().unwrap()
}

/// The target URL's path. It must have been set.
pub fn path(settings: &Settings) -> (value: &String)
    requires
        settings.dst_path is Some,
    ensures
        value@ == settings@.dst_path->Some_0,
{
    settings.dst_path.as_ref().unwrap()
}

/// The target URL's user name. It must have been set.
pub fn userid(settings: &Settings) -> (value: &String)
    requires
        settings.dst_userid is Some,
    ensures
        value@ == settings@.dst_userid->Some_0,
{
    settings.dst_userid.as_ref().unwrap()
}

/// The target URL's password (empty when it gives none). It must have been set.
pub fn passwd(settings: &Settings) -> (value: &String)
    requires
        settings.dst_passwd is Some,
    ensures
        value@ == settings@.dst_passwd->Some_0,
{
    settings.dst_passwd.as_ref().unwrap()
}

/// The proxy URL's scheme. It must have been set.
pub fn proxyscheme(settings: &Settings) -> (value: &String)
    requires
        settings.pxy_scheme is Some,
    ensures
        value@ == settings@.pxy_scheme->Some_0,
{
    settings.pxy_scheme.as_ref().unwrap()
}

/// The proxy URL's host. It must have been set.
pub fn proxydomain(settings: &Settings) -> (value: &String)
    requires
        settings.pxy_domain is Some,
    ensures
        value@ == settings@.pxy_domain->Some_0,
{
    settings.pxy_domain.as_ref().unwrap()
}

/// The proxy URL's path. It must have been set.
pub fn proxypath(settings: &Settings) -> (value: &String)
    requires
        settings.pxy_path is Some,
    ensures
        value@ == settings@.pxy_path->Some_0,
{
    settings.pxy_path.as_ref().unwrap()
}

/// The target URL's port, or -1 when it gave none.
pub fn port(settings: &Settings) -> (value: i32)
    ensures
        value == settings.dst_port,
{
    settings.dst_port
}

/// The proxy URL's port, or -1 when it gave none.
pub fn proxyport(settings: &Settings) -> (value: i32)
    ensures
        value == settings.pxy_port,
{
    settings.pxy_port
}

/// The proxy URL as given, or else the default proxy URL; one of them must
/// have been set.
pub fn proxyurl(settings: &Settings) -> (value: &String)
    requires
        settings.proxy_url is Some || settings.def_proxy_url is Some,
    ensures
        value@ == match settings@.proxy_url {
            Some(u) => u,
            None => settings@.def_proxy_url->Some_0,
        },
{
    match settings.proxy_url.as_ref() {
        Some(v) => v,
        None => settings.def_proxy_url.as_ref().unwrap(),
    }
}

} // verus!
