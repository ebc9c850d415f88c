//! The WebSocket-upgrade request header set, with its wire-level key casing.

use crate::agent::UserAuthAgent;
use crate::agent::default_ua_rendered;
use crate::agent::lemma_default_ua_literal;
use crate::json::PairsV;
use crate::json::append_json_member;
use crate::json::has_key;
use crate::json::json_object_of;
use crate::json::keys_distinct;
use crate::json::keys_distinct_check;
use crate::json::lemma_json_members_unfold;
use crate::json::lookup_pair;
use crate::json::pairs_view;
use crate::json::spec_lookup;
use vstd::prelude::*;
use vstd::string::StringExecFns;

verus! {

/// The HTTP headers sent with the WebSocket upgrade request.
#[derive(Debug)]
pub struct Headers {
    pub host: String,
    pub accept_encoding: String,
    pub accept_language: String,
    pub connection: String,
    pub origin: String,
    pub pragma: String,
    pub sec_websocket_extension: String,
    pub sec_websocket_key: String,
    pub sec_websocket_version: String,
    pub upgrade: String,
    pub user_agent: String,
}

/// The mathematical content of a `Headers` value.
pub struct HeadersV {
    pub host: Seq<char>,
    pub accept_encoding: Seq<char>,
    pub accept_language: Seq<char>,
    pub connection: Seq<char>,
    pub origin: Seq<char>,
    pub pragma: Seq<char>,
    pub sec_websocket_extension: Seq<char>,
    pub sec_websocket_key: Seq<char>,
    pub sec_websocket_version: Seq<char>,
    pub upgrade: Seq<char>,
    pub user_agent: Seq<char>,
}

impl View for Headers {
    type V = HeadersV;

    open spec fn view(&self) -> HeadersV {
        HeadersV {
            host: self.host@,
            accept_encoding: self.accept_encoding@,
            accept_language: self.accept_language@,
            connection: self.connection@,
            origin: self.origin@,
            pragma: self.pragma@,
            sec_websocket_extension: self.sec_websocket_extension@,
            sec_websocket_key: self.sec_websocket_key@,
            sec_websocket_version: self.sec_websocket_version@,
            upgrade: self.upgrade@,
            user_agent: self.user_agent@,
        }
    }
}

/// Whether `k` is one of the eleven wire-level header keys.
pub open spec fn is_headers_key(k: Seq<char>) -> bool {
    ||| k == "host"@
    ||| k == "Accept-Encoding"@
    ||| k == "Accept-Language"@
    ||| k == "connection"@
    ||| k == "origin"@
    ||| k == "pragma"@
    ||| k == "Sec-Websocket-Extension"@
    ||| k == "Sec-Websocket-Key"@
    ||| k == "Sec-Websocket-Version"@
    ||| k == "upgrade"@
    ||| k == "User-Agent"@
}

/// The header set denoted by a parsed sub-object: every key must be a known
/// header key, each key bound at most once, and all eleven keys present.
/// Values are taken as given.
pub open spec fn spec_headers_from_pairs(ps: PairsV) -> Option<HeadersV> {
    if keys_distinct(ps) && (forall|i: int|
        0 <= i < ps.len() ==> is_headers_key(#[trigger] ps[i].0)) && has_key(ps, "host"@)
        && has_key(ps, "Accept-Encoding"@) && has_key(ps, "Accept-Language"@) && has_key(
        ps,
        "connection"@,
    ) && has_key(ps, "origin"@) && has_key(ps, "pragma"@) && has_key(
        ps,
        "Sec-Websocket-Extension"@,
    ) && has_key(ps, "Sec-Websocket-Key"@) && has_key(ps, "Sec-Websocket-Version"@) && has_key(
        ps,
        "upgrade"@,
    ) && has_key(ps, "User-Agent"@) {
        Some(
            HeadersV {
                host: spec_lookup(ps, "host"@),
                accept_encoding: spec_lookup(ps, "Accept-Encoding"@),
                accept_language: spec_lookup(ps, "Accept-Language"@),
                connection: spec_lookup(ps, "connection"@),
                origin: spec_lookup(ps, "origin"@),
                pragma: spec_lookup(ps, "pragma"@),
                sec_websocket_extension: spec_lookup(ps, "Sec-Websocket-Extension"@),
                sec_websocket_key: spec_lookup(ps, "Sec-Websocket-Key"@),
                sec_websocket_version: spec_lookup(ps, "Sec-Websocket-Version"@),
                upgrade: spec_lookup(ps, "upgrade"@),
                user_agent: spec_lookup(ps, "User-Agent"@),
            },
        )
    } else {
        None
    }
}

/// The serialized members of a header set, in wire order and casing:
/// PascalCase for the plain identifiers, the six hyphenated names verbatim.
/// (The reader accepts the lower-cased identifiers of the input format; the
/// two sides are deliberately asymmetric, and round-tripping is no goal.)
pub open spec fn headers_pairs(h: HeadersV) -> PairsV {
    seq![
        ("Host"@, h.host),
        ("Accept-Encoding"@, h.accept_encoding),
        ("Accept-Language"@, h.accept_language),
        ("Connection"@, h.connection),
        ("Origin"@, h.origin),
        ("Pragma"@, h.pragma),
        ("Sec-Websocket-Extension"@, h.sec_websocket_extension),
        ("Sec-Websocket-Key"@, h.sec_websocket_key),
        ("Sec-Websocket-Version"@, h.sec_websocket_version),
        ("Upgrade"@, h.upgrade),
        ("User-Agent"@, h.user_agent),
    ]
}

fn all_keys_headers(ps: &Vec<(String, String)>) -> (r: bool)
    ensures
        r == (forall|i: int| 0 <= i < pairs_view(ps@).len() ==> is_headers_key(
            #[trigger] pairs_view(ps@)[i].0,
        )),
{
    let k0 = String::from_str("host");
    let k1 = String::from_str("Accept-Encoding");
    let k2 = String::from_str("Accept-Language");
    let k3 = String::from_str("connection");
    let k4 = String::from_str("origin");
    let k5 = String::from_str("pragma");
    let k6 = String::from_str("Sec-Websocket-Extension");
    let k7 = String::from_str("Sec-Websocket-Key");
    let k8 = String::from_str("Sec-Websocket-Version");
    let k9 = String::from_str("upgrade");
    let k10 = String::from_str("User-Agent");
    let len = ps.len();
    let mut i: usize = 0;
    while i < len
        invariant
            i <= len,
            len == ps@.len(),
            k0@ == "host"@,
            k1@ == "Accept-Encoding"@,
            k2@ == "Accept-Language"@,
            k3@ == "connection"@,
            k4@ == "origin"@,
            k5@ == "pragma"@,
            k6@ == "Sec-Websocket-Extension"@,
            k7@ == "Sec-Websocket-Key"@,
            k8@ == "Sec-Websocket-Version"@,
            k9@ == "upgrade"@,
            k10@ == "User-Agent"@,
            forall|j: int| 0 <= j < i ==> is_headers_key(#[trigger] pairs_view(ps@)[j].0),
        decreases len - i,
    {
        let known = ps[i].0 == k0 || ps[i].0 == k1 || ps[i].0 == k2 || ps[i].0 == k3 || ps[i].0
            == k4 || ps[i].0 == k5 || ps[i].0 == k6 || ps[i].0 == k7 || ps[i].0 == k8 || ps[i].0
            == k9 || ps[i].0 == k10;
        if !known {
            proof {
                assert(pairs_view(ps@)[i as int].0 == ps@[i as int].0@);
            }
            return false;
        }
        proof {
            assert(pairs_view(ps@)[i as int].0 == ps@[i as int].0@);
        }
        i += 1;
    }
    true
}

impl Headers {
    /// Build the header set denoted by the parsed key/value pairs, or
    /// nothing when the pairs do not denote one.
    pub fn from_pairs(ps: &Vec<(String, String)>) -> (r: Option<Headers>)
        ensures
            match r {
                Some(h) => spec_headers_from_pairs(pairs_view(ps@)) == Some(h@),
                None => spec_headers_from_pairs(pairs_view(ps@)) is None,
            },
    {
        if !keys_distinct_check(ps) {
            return None;
        }
        if !all_keys_headers(ps) {
            return None;
        }
        let host;
        match lookup_pair(ps, &String::from_str("host")) {
            Some(v) => {
                host = v;
            },
            None => {
                return None;
            },
        }
        let accept_encoding;
        match lookup_pair(ps, &String::from_str("Accept-Encoding")) {
            Some(v) => {
                accept_encoding = v;
            },
            None => {
                return None;
            },
        }
        let accept_language;
        match lookup_pair(ps, &String::from_str("Accept-Language")) {
            Some(v) => {
                accept_language = v;
            },
            None => {
                return None;
            },
        }
        let connection;
        match lookup_pair(ps, &String::from_str("connection")) {
            Some(v) => {
                connection = v;
            },
            None => {
                return None;
            },
        }
        let origin;
        match lookup_pair(ps, &String::from_str("origin")) {
            Some(v) => {
                origin = v;
            },
            None => {
                return None;
            },
        }
        let pragma;
        match lookup_pair(ps, &String::from_str("pragma")) {
            Some(v) => {
                pragma = v;
            },
            None => {
                return None;
            },
        }
        let sec_websocket_extension;
        match lookup_pair(ps, &String::from_str("Sec-Websocket-Extension")) {
            Some(v) => {
                sec_websocket_extension = v;
            },
            None => {
                return None;
            },
        }
        let sec_websocket_key;
        match lookup_pair(ps, &String::from_str("Sec-Websocket-Key")) {
            Some(v) => {
                sec_websocket_key = v;
            },
            None => {
                return None;
            },
        }
        let sec_websocket_version;
        match lookup_pair(ps, &String::from_str("Sec-Websocket-Version")) {
            Some(v) => {
                sec_websocket_version = v;
            },
            None => {
                return None;
            },
        }
        let upgrade;
        match lookup_pair(ps, &String::from_str("upgrade")) {
            Some(v) => {
                upgrade = v;
            },
            None => {
                return None;
            },
        }
        let user_agent;
        match lookup_pair(ps, &String::from_str("User-Agent")) {
            Some(v) => {
                user_agent = v;
            },
            None => {
                return None;
            },
        }
        Some(
            Headers {
                host,
                accept_encoding,
                accept_language,
                connection,
                origin,
                pragma,
                sec_websocket_extension,
                sec_websocket_key,
                sec_websocket_version,
                upgrade,
                user_agent,
            },
        )
    }

    /// Serialize the header set as one JSON object, keys in wire order and
    /// casing, values escaped.
    #[verifier::rlimit(100)]
    pub fn to_json(&self) -> (r: String)
        ensures
            r@ == json_object_of(headers_pairs(self@)),
    {
        let mut out = String::new();
        out.push('{');
        append_json_member(&mut out, true, "Host", self.host.as_str());
        append_json_member(&mut out, false, "Accept-Encoding", self.accept_encoding.as_str());
        append_json_member(&mut out, false, "Accept-Language", self.accept_language.as_str());
        append_json_member(&mut out, false, "Connection", self.connection.as_str());
        append_json_member(&mut out, false, "Origin", self.origin.as_str());
        append_json_member(&mut out, false, "Pragma", self.pragma.as_str());
        append_json_member(
            &mut out,
            false,
            "Sec-Websocket-Extension",
            self.sec_websocket_extension.as_str(),
        );
        append_json_member(&mut out, false, "Sec-Websocket-Key", self.sec_websocket_key.as_str());
        append_json_member(
            &mut out,
            false,
            "Sec-Websocket-Version",
            self.sec_websocket_version.as_str(),
        );
        append_json_member(&mut out, false, "Upgrade", self.upgrade.as_str());
        append_json_member(&mut out, false, "User-Agent", self.user_agent.as_str());
        out.push('}');
        proof {
            let ps = headers_pairs(self@);
            lemma_json_members_unfold(ps, true);
            lemma_json_members_unfold(ps.drop_first(), false);
            lemma_json_members_unfold(ps.drop_first().drop_first(), false);
            lemma_json_members_unfold(ps.drop_first().drop_first().drop_first(), false);
            lemma_json_members_unfold(
                ps.drop_first().drop_first().drop_first().drop_first(),
                false,
            );
            lemma_json_members_unfold(
                ps.drop_first().drop_first().drop_first().drop_first().drop_first(),
                false,
            );
            lemma_json_members_unfold(
                ps.drop_first().drop_first().drop_first().drop_first().drop_first().drop_first(),
                false,
            );
            lemma_json_members_unfold(
                ps.drop_first().drop_first().drop_first().drop_first().drop_first().drop_first()
                    .drop_first(),
                false,
            );
            lemma_json_members_unfold(
                ps.drop_first().drop_first().drop_first().drop_first().drop_first().drop_first()
                    .drop_first().drop_first(),
                false,
            );
            lemma_json_members_unfold(
                ps.drop_first().drop_first().drop_first().drop_first().drop_first().drop_first()
                    .drop_first().drop_first().drop_first(),
                false,
            );
            lemma_json_members_unfold(
                ps.drop_first().drop_first().drop_first().drop_first().drop_first().drop_first()
                    .drop_first().drop_first().drop_first().drop_first(),
                false,
            );
            assert(ps.drop_first().drop_first().drop_first().drop_first().drop_first()
                .drop_first().drop_first().drop_first().drop_first().drop_first().drop_first().len()
                == 0);
            assert(out@ =~= json_object_of(ps));
        }
        out
    }
}

impl Default for Headers {
    /// The default upgrade header set; its `User-Agent` value is the
    /// rendering of a default `UserAuthAgent`.
    fn default() -> (r: Self)
        ensures
            r@.host == "ws-api.oneme.ru"@,
            r@.accept_encoding == "gzip, deflate, br, zstd"@,
            r@.accept_language == "en-US,en;q=0.9"@,
            r@.connection == "Upgrade"@,
            r@.origin == "https://web.max.ru"@,
            r@.pragma == "no-cache"@,
            r@.sec_websocket_extension == "permessage-deflate; client_max_window_bits"@,
            r@.sec_websocket_key == "MEBa2ZnucwlWNZrrLRbmIQ"@,
            r@.sec_websocket_version == "13"@,
            r@.upgrade == "websocket"@,
            r@.user_agent == default_ua_rendered(),
    {
        Self {
            host: String::from_str("ws-api.oneme.ru"),
            accept_encoding: String::from_str("gzip, deflate, br, zstd"),
            accept_language: String::from_str("en-US,en;q=0.9"),
            connection: String::from_str("Upgrade"),
            origin: String::from_str("https://web.max.ru"),
            pragma: String::from_str("no-cache"),
            sec_websocket_extension: String::from_str(
                "permessage-deflate; client_max_window_bits",
            ),
            sec_websocket_key: String::from_str("MEBa2ZnucwlWNZrrLRbmIQ"),
            sec_websocket_version: String::from_str("13"),
            upgrade: String::from_str("websocket"),
            user_agent: UserAuthAgent::new().render(),
        }
    }
}

/// A sub-object missing any one of the eleven required header keys denotes
/// no header set.
pub proof fn lemma_headers_missing_key(ps: PairsV, k: Seq<char>)
    requires
        is_headers_key(k),
        !has_key(ps, k),
    ensures
        spec_headers_from_pairs(ps) is None,
{
}

/// A sub-object holding a key that is not a header key denotes no header
/// set.
pub proof fn lemma_headers_unknown_key(ps: PairsV, i: int)
    requires
        0 <= i < ps.len(),
        !is_headers_key(ps[i].0),
    ensures
        spec_headers_from_pairs(ps) is None,
{
}

/// A sub-object binding the same key twice denotes no header set.
pub proof fn lemma_headers_duplicate_key(ps: PairsV, i: int, j: int)
    requires
        0 <= i < j < ps.len(),
        ps[i].0 == ps[j].0,
    ensures
        spec_headers_from_pairs(ps) is None,
{
}

/// A serialized header set carries exactly the eleven keys, in order, with
/// their wire casing.
pub proof fn lemma_headers_pairs_keys(h: HeadersV)
    ensures
        headers_pairs(h).len() == 11,
        headers_pairs(h)[0].0 == "Host"@,
        headers_pairs(h)[1].0 == "Accept-Encoding"@,
        headers_pairs(h)[2].0 == "Accept-Language"@,
        headers_pairs(h)[3].0 == "Connection"@,
        headers_pairs(h)[4].0 == "Origin"@,
        headers_pairs(h)[5].0 == "Pragma"@,
        headers_pairs(h)[6].0 == "Sec-Websocket-Extension"@,
        headers_pairs(h)[7].0 == "Sec-Websocket-Key"@,
        headers_pairs(h)[8].0 == "Sec-Websocket-Version"@,
        headers_pairs(h)[9].0 == "Upgrade"@,
        headers_pairs(h)[10].0 == "User-Agent"@,
{
}

/// The `User-Agent` value of a default header set is exactly the canonical
/// desktop-browser line.
pub proof fn lemma_default_headers_user_agent(h: HeadersV)
    requires
        h.user_agent == default_ua_rendered(),
    ensures
        h.user_agent
            == "Mozilla/5.0 (Windows NT 10.0; Win64; x64) AppleWebKit/537.36 (KHTML, like Gecko) Chrome/142.0.0.0 Safari/537.36"@,
{
    lemma_default_ua_literal();
}

} // verus!
