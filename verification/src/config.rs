//! The top-level configuration record and the strict reader that produces
//! it from a JSON text.

use crate::device::UserAgent;
use crate::device::UserAgentV;
use crate::device::spec_device_from_pairs;
use crate::headers::Headers;
use crate::headers::HeadersV;
use crate::headers::spec_headers_from_pairs;
use crate::json::PairsV;
use crate::json::SectionsV;
use crate::json::has_key;
use crate::json::parse_top;
use crate::json::pairs_view;
use crate::json::sections_view;
use crate::json::spec_parse_top;
use vstd::prelude::*;
use vstd::string::StringExecFns;

verus! {

/// The configuration is not valid JSON of the expected shape: a required
/// section or field is missing, a key is unknown or repeated, or the text
/// is malformed.
#[derive(Debug, PartialEq, Eq)]
pub struct ParseError;

/// The parsed configuration: the upgrade header set and the device
/// descriptor.
#[derive(Debug)]
pub struct ConfigParser {
    pub headers: Headers,
    pub max_agent: UserAgent,
}

/// The mathematical content of a `ConfigParser` value.
pub struct ConfigV {
    pub headers: HeadersV,
    pub max_agent: UserAgentV,
}

impl View for ConfigParser {
    type V = ConfigV;

    open spec fn view(&self) -> ConfigV {
        ConfigV { headers: self.headers@, max_agent: self.max_agent@ }
    }
}

/// The configuration denoted by two named sub-objects.
pub open spec fn spec_config_of(hp: PairsV, dp: PairsV) -> Option<ConfigV> {
    match (spec_headers_from_pairs(hp), spec_device_from_pairs(dp)) {
        (Some(h), Some(d)) => Some(ConfigV { headers: h, max_agent: d }),
        _ => None,
    }
}

/// The configuration denoted by the top-level sections: exactly the
/// `headers` and `maxAgent` sections, each once, in either order.
pub open spec fn spec_config_from_sections(ss: SectionsV) -> Option<ConfigV> {
    if ss.len() == 2 && ss[0].0 == "headers"@ && ss[1].0 == "maxAgent"@ {
        spec_config_of(ss[0].1, ss[1].1)
    } else if ss.len() == 2 && ss[0].0 == "maxAgent"@ && ss[1].0 == "headers"@ {
        spec_config_of(ss[1].1, ss[0].1)
    } else {
        None
    }
}

/// The configuration denoted by a complete JSON text, if any.
pub open spec fn spec_parse_config(s: Seq<char>) -> Option<ConfigV> {
    match spec_parse_top(s) {
        Some(ss) => spec_config_from_sections(ss),
        None => None,
    }
}

impl ConfigParser {
    /// Parse a configuration text. Returns the configuration the text
    /// denotes, and fails exactly on the texts that denote none.
    pub fn parse_config_str(text: &str) -> (r: Result<ConfigParser, ParseError>)
        ensures
            match r {
                Ok(c) => spec_parse_config(text@) == Some(c@),
                Err(_) => spec_parse_config(text@) is None,
            },
    {
        let mut secs;
        match parse_top(text) {
            Some(v) => {
                secs = v;
            },
            None => {
                return Err(ParseError);
            },
        }
        let ghost ss = sections_view(secs@);
        if secs.len() != 2 {
            return Err(ParseError);
        }
        let second;
        match secs.pop() {
            Some(p) => {
                second = p;
            },
            None => {
                return Err(ParseError);
            },
        }
        let first;
        match secs.pop() {
            Some(p) => {
                first = p;
            },
            None => {
                return Err(ParseError);
            },
        }
        proof {
            assert(ss[0] == (first.0@, pairs_view(first.1@)));
            assert(ss[1] == (second.0@, pairs_view(second.1@)));
        }
        let key_headers = String::from_str("headers");
        let key_device = String::from_str("maxAgent");
        let headers_pairs_vec;
        let device_pairs_vec;
        if first.0 == key_headers && second.0 == key_device {
            headers_pairs_vec = first.1;
            device_pairs_vec = second.1;
        } else if first.0 == key_device && second.0 == key_headers {
            headers_pairs_vec = second.1;
            device_pairs_vec = first.1;
        } else {
            return Err(ParseError);
        }
        let headers;
        match Headers::from_pairs(&headers_pairs_vec) {
            Some(h) => {
                headers = h;
            },
            None => {
                return Err(ParseError);
            },
        }
        let max_agent;
        match UserAgent::from_pairs(&device_pairs_vec) {
            Some(d) => {
                max_agent = d;
            },
            None => {
                return Err(ParseError);
            },
        }
        Ok(ConfigParser { headers, max_agent })
    }
}

/// A top-level object missing either required section denotes no
/// configuration.
pub proof fn lemma_config_missing_section(ss: SectionsV, k: Seq<char>)
    requires
        k == "headers"@ || k == "maxAgent"@,
        !has_key(ss, k),
    ensures
        spec_config_from_sections(ss) is None,
{
    if ss.len() == 2 && ss[0].0 == "headers"@ && ss[1].0 == "maxAgent"@ {
        if k == "headers"@ {
            assert(0 <= 0 < ss.len() && ss[0].0 == k);
        } else {
            assert(0 <= 1 < ss.len() && ss[1].0 == k);
        }
    }
    if ss.len() == 2 && ss[0].0 == "maxAgent"@ && ss[1].0 == "headers"@ {
        if k == "headers"@ {
            assert(0 <= 1 < ss.len() && ss[1].0 == k);
        } else {
            assert(0 <= 0 < ss.len() && ss[0].0 == k);
        }
    }
}

/// A top-level object holding any section other than `headers` and
/// `maxAgent` denotes no configuration.
pub proof fn lemma_config_unknown_section(ss: SectionsV, i: int)
    requires
        0 <= i < ss.len(),
        ss[i].0 != "headers"@,
        ss[i].0 != "maxAgent"@,
    ensures
        spec_config_from_sections(ss) is None,
{
    assert(ss.len() == 2 ==> (i == 0 || i == 1));
}

/// A top-level object naming the same section twice denotes no
/// configuration.
pub proof fn lemma_config_duplicate_section(ss: SectionsV, i: int, j: int)
    requires
        0 <= i < j < ss.len(),
        ss[i].0 == ss[j].0,
    ensures
        spec_config_from_sections(ss) is None,
{
    reveal_strlit("headers");
    reveal_strlit("maxAgent");
    assert("headers"@.len() == 7);
    assert("maxAgent"@.len() == 8);
}

} // verus!
