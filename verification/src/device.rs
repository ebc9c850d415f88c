//! The per-device descriptor embedded in the configuration.

use crate::json::PairsV;
use crate::json::append_json_member;
use crate::json::has_key;
use crate::json::json_object_of;
use crate::json::keys_distinct;
use crate::json::keys_distinct_check;
use crate::json::lemma_json_members_unfold;
use crate::json::lookup_pair;
use crate::json::pairs_view;
use crate::json::spec_lookup;
use vstd::prelude::*;
use vstd::string::StringExecFns;

verus! {

/// Client-device metadata, encoded in camelCase. `header_user_agent` is the
/// one optional field.
#[derive(Clone, Debug)]
pub struct UserAgent {
    pub app_version: String,
    pub device_locale: String,
    pub device_name: String,
    pub device_type: String,
    pub header_user_agent: Option<String>,
    pub locale: String,
    pub os_version: String,
    pub screen: String,
    pub timezone: String,
}

/// The mathematical content of a `UserAgent` value.
pub struct UserAgentV {
    pub app_version: Seq<char>,
    pub device_locale: Seq<char>,
    pub device_name: Seq<char>,
    pub device_type: Seq<char>,
    pub header_user_agent: Option<Seq<char>>,
    pub locale: Seq<char>,
    pub os_version: Seq<char>,
    pub screen: Seq<char>,
    pub timezone: Seq<char>,
}

impl View for UserAgent {
    type V = UserAgentV;

    open spec fn view(&self) -> UserAgentV {
        UserAgentV {
            app_version: self.app_version@,
            device_locale: self.device_locale@,
            device_name: self.device_name@,
            device_type: self.device_type@,
            header_user_agent: match self.header_user_agent {
                Some(x) => Some(x@),
                None => None,
            },
            locale: self.locale@,
            os_version: self.os_version@,
            screen: self.screen@,
            timezone: self.timezone@,
        }
    }
}

/// Whether `k` is a device-descriptor key (the eight required camelCase
/// keys, or the optional `headerUserAgent`).
pub open spec fn is_device_key(k: Seq<char>) -> bool {
    ||| k == "appVersion"@
    ||| k == "deviceLocale"@
    ||| k == "deviceName"@
    ||| k == "deviceType"@
    ||| k == "headerUserAgent"@
    ||| k == "locale"@
    ||| k == "osVersion"@
    ||| k == "screen"@
    ||| k == "timezone"@
}

/// The device descriptor denoted by a parsed sub-object: every key known,
/// each bound at most once, the eight required keys present; the optional
/// `headerUserAgent` is carried only when bound.
pub open spec fn spec_device_from_pairs(ps: PairsV) -> Option<UserAgentV> {
    if keys_distinct(ps) && (forall|i: int|
        0 <= i < ps.len() ==> is_device_key(#[trigger] ps[i].0)) && has_key(ps, "appVersion"@)
        && has_key(ps, "deviceLocale"@) && has_key(ps, "deviceName"@) && has_key(ps, "deviceType"@)
        && has_key(ps, "locale"@) && has_key(ps, "osVersion"@) && has_key(ps, "screen"@)
        && has_key(ps, "timezone"@) {
        Some(
            UserAgentV {
                app_version: spec_lookup(ps, "appVersion"@),
                device_locale: spec_lookup(ps, "deviceLocale"@),
                device_name: spec_lookup(ps, "deviceName"@),
                device_type: spec_lookup(ps, "deviceType"@),
                header_user_agent: if has_key(ps, "headerUserAgent"@) {
                    Some(spec_lookup(ps, "headerUserAgent"@))
                } else {
                    None
                },
                locale: spec_lookup(ps, "locale"@),
                os_version: spec_lookup(ps, "osVersion"@),
                screen: spec_lookup(ps, "screen"@),
                timezone: spec_lookup(ps, "timezone"@),
            },
        )
    } else {
        None
    }
}

/// The serialized members of a device descriptor, in declaration order;
/// `headerUserAgent` appears only when present.
pub open spec fn device_pairs(d: UserAgentV) -> PairsV {
    let head = seq![
        ("appVersion"@, d.app_version),
        ("deviceLocale"@, d.device_locale),
        ("deviceName"@, d.device_name),
        ("deviceType"@, d.device_type),
    ];
    let tail = seq![
        ("locale"@, d.locale),
        ("osVersion"@, d.os_version),
        ("screen"@, d.screen),
        ("timezone"@, d.timezone),
    ];
    match d.header_user_agent {
        Some(x) => head + seq![("headerUserAgent"@, x)] + tail,
        None => head + tail,
    }
}

fn all_keys_device(ps: &Vec<(String, String)>) -> (r: bool)
    ensures
        r == (forall|i: int| 0 <= i < pairs_view(ps@).len() ==> is_device_key(
            #[trigger] pairs_view(ps@)[i].0,
        )),
{
    let k0 = String::from_str("appVersion");
    let k1 = String::from_str("deviceLocale");
    let k2 = String::from_str("deviceName");
    let k3 = String::from_str("deviceType");
    let k4 = String::from_str("headerUserAgent");
    let k5 = String::from_str("locale");
    let k6 = String::from_str("osVersion");
    let k7 = String::from_str("screen");
    let k8 = String::from_str("timezone");
    let len = ps.len();
    let mut i: usize = 0;
    while i < len
        invariant
            i <= len,
            len == ps@.len(),
            k0@ == "appVersion"@,
            k1@ == "deviceLocale"@,
            k2@ == "deviceName"@,
            k3@ == "deviceType"@,
            k4@ == "headerUserAgent"@,
            k5@ == "locale"@,
            k6@ == "osVersion"@,
            k7@ == "screen"@,
            k8@ == "timezone"@,
            forall|j: int| 0 <= j < i ==> is_device_key(#[trigger] pairs_view(ps@)[j].0),
        decreases len - i,
    {
        let known = ps[i].0 == k0 || ps[i].0 == k1 || ps[i].0 == k2 || ps[i].0 == k3 || ps[i].0
            == k4 || ps[i].0 == k5 || ps[i].0 == k6 || ps[i].0 == k7 || ps[i].0 == k8;
        if !known {
            proof {
                assert(pairs_view(ps@)[i as int].0 == ps@[i as int].0@);
            }
            return false;
        }
        proof {
            assert(pairs_view(ps@)[i as int].0 == ps@[i as int].0@);
        }
        i += 1;
    }
    true
}

impl UserAgent {
    /// Build the device descriptor denoted by the parsed key/value pairs,
    /// or nothing when the pairs do not denote one.
    pub fn from_pairs(ps: &Vec<(String, String)>) -> (r: Option<UserAgent>)
        ensures
            match r {
                Some(d) => spec_device_from_pairs(pairs_view(ps@)) == Some(d@),
                None => spec_device_from_pairs(pairs_view(ps@)) is None,
            },
    {
        if !keys_distinct_check(ps) {
            return None;
        }
        if !all_keys_device(ps) {
            return None;
        }
        let app_version;
        match lookup_pair(ps, &String::from_str("appVersion")) {
            Some(v) => {
                app_version = v;
            },
            None => {
                return None;
            },
        }
        let device_locale;
        match lookup_pair(ps, &String::from_str("deviceLocale")) {
            Some(v) => {
                device_locale = v;
            },
            None => {
                return None;
            },
        }
        let device_name;
        match lookup_pair(ps, &String::from_str("deviceName")) {
            Some(v) => {
                device_name = v;
            },
            None => {
                return None;
            },
        }
        let device_type;
        match lookup_pair(ps, &String::from_str("deviceType")) {
            Some(v) => {
                device_type = v;
            },
            None => {
                return None;
            },
        }
        let header_user_agent = lookup_pair(ps, &String::from_str("headerUserAgent"));
        let locale;
        match lookup_pair(ps, &String::from_str("locale")) {
            Some(v) => {
                locale = v;
            },
            None => {
                return None;
            },
        }
        let os_version;
        match lookup_pair(ps, &String::from_str("osVersion")) {
            Some(v) => {
                os_version = v;
            },
            None => {
                return None;
            },
        }
        let screen;
        match lookup_pair(ps, &String::from_str("screen")) {
            Some(v) => {
                screen = v;
            },
            None => {
                return None;
            },
        }
        let timezone;
        match lookup_pair(ps, &String::from_str("timezone")) {
            Some(v) => {
                timezone = v;
            },
            None => {
                return None;
            },
        }
        Some(
            UserAgent {
                app_version,
                device_locale,
                device_name,
                device_type,
                header_user_agent,
                locale,
                os_version,
                screen,
                timezone,
            },
        )
    }

    /// Serialize the device descriptor as one JSON object in declaration
    /// order; an absent `headerUserAgent` is omitted entirely.
    pub fn to_json(&self) -> (r: String)
        ensures
            r@ == json_object_of(device_pairs(self@)),
    {
        match &self.header_user_agent {
            Some(_) => self.to_json_present(),
            None => self.to_json_absent(),
        }
    }

    #[verifier::rlimit(100)]
    fn to_json_present(&self) -> (r: String)
        requires
            self.header_user_agent is Some,
        ensures
            r@ == json_object_of(device_pairs(self@)),
    {
        let mut out = String::new();
        out.push('{');
        append_json_member(&mut out, true, "appVersion", self.app_version.as_str());
        append_json_member(&mut out, false, "deviceLocale", self.device_locale.as_str());
        append_json_member(&mut out, false, "deviceName", self.device_name.as_str());
        append_json_member(&mut out, false, "deviceType", self.device_type.as_str());
        match &self.header_user_agent {
            Some(x) => {
                append_json_member(&mut out, false, "headerUserAgent", x.as_str());
                append_json_member(&mut out, false, "locale", self.locale.as_str());
                append_json_member(&mut out, false, "osVersion", self.os_version.as_str());
                append_json_member(&mut out, false, "screen", self.screen.as_str());
                append_json_member(&mut out, false, "timezone", self.timezone.as_str());
                out.push('}');
                proof {
                    let dv = self@;
                    let qs: PairsV = seq![
                        ("appVersion"@, dv.app_version),
                        ("deviceLocale"@, dv.device_locale),
                        ("deviceName"@, dv.device_name),
                        ("deviceType"@, dv.device_type),
                        ("headerUserAgent"@, dv.header_user_agent.unwrap()),
                        ("locale"@, dv.locale),
                        ("osVersion"@, dv.os_version),
                        ("screen"@, dv.screen),
                        ("timezone"@, dv.timezone),
                    ];
                    assert(device_pairs(dv) =~= qs);
                    lemma_json_members_unfold(qs, true);
                    lemma_json_members_unfold(qs.drop_first(), false);
                    lemma_json_members_unfold(qs.drop_first().drop_first(), false);
                    lemma_json_members_unfold(qs.drop_first().drop_first().drop_first(), false);
                    lemma_json_members_unfold(
                        qs.drop_first().drop_first().drop_first().drop_first(),
                        false,
                    );
                    lemma_json_members_unfold(
                        qs.drop_first().drop_first().drop_first().drop_first().drop_first(),
                        false,
                    );
                    lemma_json_members_unfold(
                        qs.drop_first().drop_first().drop_first().drop_first().drop_first()
                            .drop_first(),
                        false,
                    );
                    lemma_json_members_unfold(
                        qs.drop_first().drop_first().drop_first().drop_first().drop_first()
                            .drop_first().drop_first(),
                        false,
                    );
                    lemma_json_members_unfold(
                        qs.drop_first().drop_first().drop_first().drop_first().drop_first()
                            .drop_first().drop_first().drop_first(),
                        false,
                    );
                    assert(out@ =~= json_object_of(qs));
                }
                out
            },
            None => {
                out
            },
        }
    }

    #[verifier::rlimit(100)]
    fn to_json_absent(&self) -> (r: String)
        requires
            self.header_user_agent is None,
        ensures
            r@ == json_object_of(device_pairs(self@)),
    {
        let mut out = String::new();
        out.push('{');
        append_json_member(&mut out, true, "appVersion", self.app_version.as_str());
        append_json_member(&mut out, false, "deviceLocale", self.device_locale.as_str());
        append_json_member(&mut out, false, "deviceName", self.device_name.as_str());
        append_json_member(&mut out, false, "deviceType", self.device_type.as_str());
        append_json_member(&mut out, false, "locale", self.locale.as_str());
        append_json_member(&mut out, false, "osVersion", self.os_version.as_str());
        append_json_member(&mut out, false, "screen", self.screen.as_str());
        append_json_member(&mut out, false, "timezone", self.timezone.as_str());
        out.push('}');
        proof {
            let dv = self@;
            let qs: PairsV = seq![
                ("appVersion"@, dv.app_version),
                ("deviceLocale"@, dv.device_locale),
                ("deviceName"@, dv.device_name),
                ("deviceType"@, dv.device_type),
                ("locale"@, dv.locale),
                ("osVersion"@, dv.os_version),
                ("screen"@, dv.screen),
                ("timezone"@, dv.timezone),
            ];
            assert(device_pairs(dv) =~= qs);
            lemma_json_members_unfold(qs, true);
            lemma_json_members_unfold(qs.drop_first(), false);
            lemma_json_members_unfold(qs.drop_first().drop_first(), false);
            lemma_json_members_unfold(qs.drop_first().drop_first().drop_first(), false);
            lemma_json_members_unfold(
                qs.drop_first().drop_first().drop_first().drop_first(),
                false,
            );
            lemma_json_members_unfold(
                qs.drop_first().drop_first().drop_first().drop_first().drop_first(),
                false,
            );
            lemma_json_members_unfold(
                qs.drop_first().drop_first().drop_first().drop_first().drop_first()
                    .drop_first(),
                false,
            );
            lemma_json_members_unfold(
                qs.drop_first().drop_first().drop_first().drop_first().drop_first()
                    .drop_first().drop_first(),
                false,
            );
            assert(out@ =~= json_object_of(qs));
        }
        out
    }
}

/// A sub-object missing any one of the eight required device keys denotes
/// no device descriptor.
pub proof fn lemma_device_missing_key(ps: PairsV, k: Seq<char>)
    requires
        is_device_key(k),
        k != "headerUserAgent"@,
        !has_key(ps, k),
    ensures
        spec_device_from_pairs(ps) is None,
{
}

/// A sub-object holding a key that is not a device key denotes no device
/// descriptor.
pub proof fn lemma_device_unknown_key(ps: PairsV, i: int)
    requires
        0 <= i < ps.len(),
        !is_device_key(ps[i].0),
    ensures
        spec_device_from_pairs(ps) is None,
{
}

/// A sub-object binding the same key twice denotes no device descriptor.
pub proof fn lemma_device_duplicate_key(ps: PairsV, i: int, j: int)
    requires
        0 <= i < j < ps.len(),
        ps[i].0 == ps[j].0,
    ensures
        spec_device_from_pairs(ps) is None,
{
}

/// When `headerUserAgent` is absent the serialized members carry only the
/// eight required keys and no `headerUserAgent` key; when present, the key
/// appears once with the supplied value.
pub proof fn lemma_device_optional_omission(d: UserAgentV)
    ensures
        d.header_user_agent is None ==> {
            &&& device_pairs(d).len() == 8
            &&& forall|i: int| 0 <= i < device_pairs(d).len() ==> #[trigger] device_pairs(
                d,
            )[i].0 != "headerUserAgent"@
        },
        d.header_user_agent is Some ==> {
            &&& device_pairs(d).len() == 9
            &&& device_pairs(d)[4] == ("headerUserAgent"@, d.header_user_agent.unwrap())
        },
{
    reveal_strlit("appVersion");
    reveal_strlit("deviceLocale");
    reveal_strlit("deviceName");
    reveal_strlit("deviceType");
    reveal_strlit("headerUserAgent");
    reveal_strlit("locale");
    reveal_strlit("osVersion");
    reveal_strlit("screen");
    reveal_strlit("timezone");
    if d.header_user_agent is None {
        assert(forall|i: int| 0 <= i < device_pairs(d).len() ==> #[trigger] device_pairs(d)[i].0
            != "headerUserAgent"@) by {
            assert("appVersion"@.len() == 10);
            assert("headerUserAgent"@.len() == 15);
        }
    }
}

} // verus!
