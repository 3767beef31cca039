//! The text of an HTTP GET request and of its authorization headers.
use vstd::prelude::*;
use vstd::string::StringExecFns;
use vstd::utf8::encode_utf8;
use crate::base64::encode;
use crate::base64::spec::spec_encode;
use crate::text::{chars_of, lemma_ascii_encode_utf8};
use crate::base64::spec::{spec_decode, DecodeError};
use crate::base64::laws::{law_encoded_length, law_decode_of_encode};

verus! {

/// The text that Basic authorization encodes: the user name, `:`, the password.
pub open spec fn credential_text(username: Seq<char>, password: Seq<char>) -> Seq<char> {
    username + seq![':'] + password
}

/// The Base64 text of the UTF-8 bytes of `credential_text`.
pub open spec fn basic_credentials(username: Seq<char>, password: Seq<char>) -> Seq<char> {
    chars_of(spec_encode(encode_utf8(credential_text(username, password))))
}

/// `username:password` encoded in Base64.
fn basic_credentials_of(username: &str, password: &str) -> (credentials: String)
    ensures
        credentials@ == basic_credentials(username@, password@),
{
    let mut text = String::from_str(username);
    text.append(":");
    text.append(password);
    proof {
        reveal_strlit(":");
        assert(text@ =~= credential_text(username@, password@));
    }
    encode(text.as_str().as_bytes())
}

/// Authorization of a request to the origin server.
pub struct Auth {
    pub method: &'static str,
    pub credentials: String,
}

/// Authorization of a request to a proxy.
pub struct ProxyAuth {
    pub method: &'static str,
    pub credentials: String,
}

impl Auth {
    /// Basic authorization with the given user name and password.
    pub fn basic(username: &str, password: &str) -> (auth: Auth)
        ensures
            auth.method@ == "BASIC"@,
            auth.credentials@ == basic_credentials(username@, password@),
    {
        let credentials = basic_credentials_of(username, password);
        Auth { method: "BASIC", credentials }
    }

    /// The `Authorization` header line.
    pub fn as_tag(&self) -> (tag: String)
        ensures
            tag@ == "Authorization: "@ + self.method@ + " "@ + self.credentials@ + "\r\n"@,
    {
        let mut tag = String::from_str("Authorization: ");
        tag.append(self.method);
        tag.append(" ");
        tag.append(self.credentials.as_str());
        tag.append("\r\n");
        tag
    }
}

impl ProxyAuth {
    /// Basic authorization, towards a proxy, with the given user name and password.
    pub fn basic(username: &str, password: &str) -> (auth: ProxyAuth)
        ensures
            auth.method@ == "BASIC"@,
            auth.credentials@ == basic_credentials(username@, password@),
    {
        let credentials = basic_credentials_of(username, password);
        ProxyAuth { method: "BASIC", credentials }
    }

    /// The `Proxy-Authorization` header line.
    pub fn as_tag(&self) -> (tag: String)
        ensures
            tag@ == "Proxy-Authorization: "@ + self.method@ + " "@ + self.credentials@ + "\r\n"@,
    {
        let mut tag = String::from_str("Proxy-Authorization: ");
        tag.append(self.method);
        tag.append(" ");
        tag.append(self.credentials.as_str());
        tag.append("\r\n");
        tag
    }
}


/// Basic authorization for the origin server when a user name is given.
pub fn get_auth(usrid: &str, passwd: &str) -> (auth: Option<Auth>)
    ensures
        auth is Some <==> usrid@.len() > 0,
        auth matches Some(a) ==> a.method@ == "BASIC"@ && a.credentials@ == basic_credentials(
            usrid@,
            passwd@,
        ),
{
    if !usrid.is_empty() {
        Some(Auth::basic(usrid, passwd))
    } else {
        None
    }
}

/// Basic authorization for a proxy when a user name is given.
pub fn get_proxy_auth(usrid: &str, passwd: &str) -> (auth: Option<ProxyAuth>)
    ensures
        auth is Some <==> usrid@.len() > 0,
        auth matches Some(a) ==> a.method@ == "BASIC"@ && a.credentials@ == basic_credentials(
            usrid@,
            passwd@,
        ),
{
    if !usrid.is_empty() {
        Some(ProxyAuth::basic(usrid, passwd))
    } else {
        None
    }
}

/// The `Authorization` line of a request: none without a user name.
pub open spec fn authorization_line(userid: Seq<char>, passwd: Seq<char>) -> Seq<char> {
    if userid.len() > 0 {
        "Authorization: "@ + "BASIC"@ + " "@ + basic_credentials(userid, passwd) + "\r\n"@
    } else {
        Seq::empty()
    }
}

/// The text of a GET request for `path` at `host`, with Basic authorization
/// when a user name is given.
pub open spec fn request_text_of(
    userid: Seq<char>,
    passwd: Seq<char>,
    host: Seq<char>,
    path: Seq<char>,
) -> Seq<char> {
    "GET "@ + path + " HTTP/1.1\r\n"@ + authorization_line(userid, passwd) + "Host: "@ + host
        + "\r\nUser-Agent: webget/0.1\r\nAccept: */*\r\nConnection: close\r\n\r\n"@
}

/// The request that is sent for `path` at `host`.
pub fn request_text(userid: &str, passwd: &str, host: &str, path: &str) -> (text: String)
    ensures
        text@ == request_text_of(userid@, passwd@, host@, path@),
{
    let auth = match get_auth(userid, passwd) {
        Some(v) => v.as_tag(),
        None => String::new(),
    };
    let mut text = String::from_str("GET ");
    text.append(path);
    text.append(" HTTP/1.1\r\n");
    text.append(auth.as_str());
    text.append("Host: ");
    text.append(host);
    text.append("\r\nUser-Agent: webget/0.1\r\nAccept: */*\r\nConnection: close\r\n\r\n");
    proof {
        assert(text@ =~= request_text_of(userid@, passwd@, host@, path@));
    }
    text
}


/// The credentials of Basic authorization decode, as Base64, to the UTF-8
/// bytes of `username:password`.
pub proof fn law_credentials_decode(username: Seq<char>, password: Seq<char>)
    ensures
        spec_decode(encode_utf8(basic_credentials(username, password))) == Ok::<
            Seq<u8>,
            DecodeError,
        >(encode_utf8(credential_text(username, password))),
{
    let bytes = encode_utf8(credential_text(username, password));
    law_encoded_length(bytes);
    lemma_ascii_encode_utf8(spec_encode(bytes));
    law_decode_of_encode(bytes);
}


/// A request for `path` at `host` has, after its request line, an
/// `Authorization: BASIC` line exactly when a user name is given, whatever
/// the password (an empty one included); that line carries the Base64 of
/// `user:password`, and the rest of the request is the same either way.
pub proof fn law_request_authorization(
    userid: Seq<char>,
    passwd: Seq<char>,
    host: Seq<char>,
    path: Seq<char>,
)
    ensures
        userid.len() > 0 ==> request_text_of(userid, passwd, host, path) == "GET "@ + path
            + " HTTP/1.1\r\n"@ + "Authorization: BASIC "@ + chars_of(
            spec_encode(encode_utf8(userid + seq![':'] + passwd)),
        ) + "\r\n"@ + "Host: "@ + host
            + "\r\nUser-Agent: webget/0.1\r\nAccept: */*\r\nConnection: close\r\n\r\n"@,
        userid.len() == 0 ==> request_text_of(userid, passwd, host, path) == "GET "@ + path
            + " HTTP/1.1\r\n"@ + "Host: "@ + host
            + "\r\nUser-Agent: webget/0.1\r\nAccept: */*\r\nConnection: close\r\n\r\n"@,
{
    reveal_strlit("BASIC");
    reveal_strlit("Authorization: ");
    reveal_strlit(" ");
    reveal_strlit("Authorization: BASIC ");
    assert("Authorization: "@ + "BASIC"@ + " "@ =~= "Authorization: BASIC "@);
    if userid.len() == 0 {
        assert(authorization_line(userid, passwd) =~= Seq::<char>::empty());
        assert(request_text_of(userid, passwd, host, path) =~= "GET "@ + path + " HTTP/1.1\r\n"@
            + "Host: "@ + host
            + "\r\nUser-Agent: webget/0.1\r\nAccept: */*\r\nConnection: close\r\n\r\n"@);
    } else {
        assert(request_text_of(userid, passwd, host, path) =~= "GET "@ + path + " HTTP/1.1\r\n"@
            + "Authorization: BASIC "@ + chars_of(
            spec_encode(encode_utf8(userid + seq![':'] + passwd)),
        ) + "\r\n"@ + "Host: "@ + host
            + "\r\nUser-Agent: webget/0.1\r\nAccept: */*\r\nConnection: close\r\n\r\n"@);
    }
}

} // verus!
