//! Strict JSON text machinery for the configuration format.
//!
//! The grammar accepted here is the configuration file contract: one object
//! whose members are named sub-objects, each sub-object mapping string keys
//! to string values. The spec functions in this module define that grammar
//! over `Seq<char>`; the executable parsers are proved to return exactly
//! what the grammar denotes. Serialization helpers build the same textual
//! shape back from field values.

use vstd::prelude::*;
use vstd::string::StrSliceExecFns;
use vstd::string::StringExecFns;

verus! {

/// A parsed sub-object: key/value pairs of decoded strings, in source order.
pub type PairsV = Seq<(Seq<char>, Seq<char>)>;

/// A parsed top-level object: named sub-objects, in source order.
pub type SectionsV = Seq<(Seq<char>, PairsV)>;

/// Relies on alloc's `String::push`: appends the given character to the end
/// of the string.
pub assume_specification[ String::push ](s: &mut String, c: char)
    ensures
        final(s)@ == old(s)@.push(c),
;

/// Relies on core's `char::from_u32`: yields the character with the given
/// scalar value, and nothing exactly for surrogate code points and values
/// beyond the Unicode range.
pub assume_specification[ char::from_u32 ](u: u32) -> (r: Option<char>)
    ensures
        r is Some <==> (u < 0xD800 || (0xE000 <= u && u < 0x110000)),
        r is Some ==> r.unwrap() as u32 == u,
;

/// JSON insignificant whitespace.
pub open spec fn is_ws(c: char) -> bool {
    c == ' ' || c == '\t' || c == '\n' || c == '\r'
}

/// First position at or after `i` that holds no whitespace.
pub open spec fn spec_skip_ws(s: Seq<char>, i: int) -> int
    decreases s.len() - i
        when 0 <= i <= s.len()
{
    if i < s.len() && is_ws(s[i]) {
        spec_skip_ws(s, i + 1)
    } else {
        i
    }
}

pub proof fn lemma_skip_ws_bounds(s: Seq<char>, i: int)
    requires
        0 <= i <= s.len(),
    ensures
        i <= spec_skip_ws(s, i) <= s.len(),
    decreases s.len() - i,
{
    if i < s.len() && is_ws(s[i]) {
        lemma_skip_ws_bounds(s, i + 1);
    }
}

/// The character denoted by the escape `\c`, when `c` is a recognised
/// single-character escape.
pub open spec fn spec_unescape(c: char) -> Option<char> {
    if c == '"' {
        Some('"')
    } else if c == '\\' {
        Some('\\')
    } else if c == '/' {
        Some('/')
    } else if c == 'b' {
        Some('\u{8}')
    } else if c == 'f' {
        Some('\u{c}')
    } else if c == 'n' {
        Some('\n')
    } else if c == 'r' {
        Some('\r')
    } else if c == 't' {
        Some('\t')
    } else {
        None
    }
}

/// The value of one hexadecimal digit.
pub open spec fn spec_hex_val(c: char) -> Option<u32> {
    let u = c as u32;
    if '0' as u32 <= u && u <= '9' as u32 {
        Some((u - '0' as u32) as u32)
    } else if 'a' as u32 <= u && u <= 'f' as u32 {
        Some((u - 'a' as u32 + 10) as u32)
    } else if 'A' as u32 <= u && u <= 'F' as u32 {
        Some((u - 'A' as u32 + 10) as u32)
    } else {
        None
    }
}

/// The value of the four hexadecimal digits at `i`.
pub open spec fn spec_hex4(s: Seq<char>, i: int) -> Option<u32> {
    if 0 <= i && i + 4 <= s.len() {
        match (spec_hex_val(s[i]), spec_hex_val(s[i + 1]), spec_hex_val(s[i + 2]), spec_hex_val(
            s[i + 3],
        )) {
            (Some(a), Some(b), Some(c), Some(d)) => Some(
                (a * 4096 + b * 256 + c * 16 + d) as u32,
            ),
            _ => None,
        }
    } else {
        None
    }
}

/// The character denoted by a `\u` escape whose first hex digit stands at
/// `i`: four hex digits for a scalar outside the surrogate range, or a
/// high surrogate followed by `\u` and a low surrogate for one beyond the
/// basic plane. Returns the character and the position after the escape.
pub open spec fn spec_unicode_escape(s: Seq<char>, i: int) -> Option<(char, int)> {
    match spec_hex4(s, i) {
        None => None,
        Some(code) => {
            if 0xD800 <= code < 0xDC00 {
                if i + 10 <= s.len() && s[i + 4] == '\\' && s[i + 5] == 'u' {
                    match spec_hex4(s, i + 6) {
                        Some(low) => if 0xDC00 <= low < 0xE000 {
                            Some(
                                (
                                    ((0x10000 + (code - 0xD800) * 0x400 + (low - 0xDC00)) as u32) as char,
                                    i + 10,
                                ),
                            )
                        } else {
                            None
                        },
                        None => None,
                    }
                } else {
                    None
                }
            } else if 0xDC00 <= code < 0xE000 {
                None
            } else {
                Some((code as char, i + 4))
            }
        },
    }
}

pub proof fn lemma_unicode_escape_bounds(s: Seq<char>, i: int)
    requires
        spec_unicode_escape(s, i) is Some,
    ensures
        0 <= i,
        i + 4 <= spec_unicode_escape(s, i).unwrap().1 <= s.len(),
{
}

/// Parse a string body starting just after the opening quote. Returns the
/// decoded characters and the position just after the closing quote.
pub open spec fn spec_parse_string_body(s: Seq<char>, i: int) -> Option<(Seq<char>, int)>
    decreases s.len() - i
        when 0 <= i <= s.len()
{
    if i >= s.len() {
        None
    } else if s[i] == '"' {
        Some((Seq::empty(), i + 1))
    } else if s[i] == '\\' {
        if i + 1 < s.len() {
            if s[i + 1] == 'u' {
                match spec_unicode_escape(s, i + 2) {
                    Some(e) => {
                        proof {
                            lemma_unicode_escape_bounds(s, i + 2);
                        }
                        match spec_parse_string_body(s, e.1) {
                            Some(r) => Some((seq![e.0] + r.0, r.1)),
                            None => None,
                        }
                    },
                    None => None,
                }
            } else {
                match spec_unescape(s[i + 1]) {
                    Some(c) => match spec_parse_string_body(s, i + 2) {
                        Some(r) => Some((seq![c] + r.0, r.1)),
                        None => None,
                    },
                    None => None,
                }
            }
        } else {
            None
        }
    } else if (s[i] as u32) < 32 {
        None
    } else {
        match spec_parse_string_body(s, i + 1) {
            Some(r) => Some((seq![s[i]] + r.0, r.1)),
            None => None,
        }
    }
}

pub proof fn lemma_string_body_advances(s: Seq<char>, i: int)
    requires
        0 <= i <= s.len(),
        spec_parse_string_body(s, i) is Some,
    ensures
        i < spec_parse_string_body(s, i).unwrap().1 <= s.len(),
    decreases s.len() - i,
{
    if i >= s.len() {
    } else if s[i] == '"' {
    } else if s[i] == '\\' {
        if i + 1 < s.len() {
            if s[i + 1] == 'u' {
                if spec_unicode_escape(s, i + 2) is Some {
                    lemma_unicode_escape_bounds(s, i + 2);
                    lemma_string_body_advances(s, spec_unicode_escape(s, i + 2).unwrap().1);
                }
            } else {
                if spec_unescape(s[i + 1]) is Some {
                    lemma_string_body_advances(s, i + 2);
                }
            }
        }
    } else if (s[i] as u32) < 32 {
    } else {
        lemma_string_body_advances(s, i + 1);
    }
}

/// Parse the members of a sub-object, starting just after the opening brace
/// or a separating comma. At least one member must follow. Returns the pairs
/// and the position just after the closing brace.
pub open spec fn spec_parse_members(s: Seq<char>, i: int) -> Option<(PairsV, int)>
    decreases s.len() - i
        when 0 <= i <= s.len()
{
    let j = spec_skip_ws(s, i);
    if !(j < s.len() && s[j] == '"') {
        None
    } else {
        match spec_parse_string_body(s, j + 1) {
            None => None,
            Some(key) => {
                let j2 = spec_skip_ws(s, key.1);
                if !(j2 < s.len() && s[j2] == ':') {
                    None
                } else {
                    let j3 = spec_skip_ws(s, j2 + 1);
                    if !(j3 < s.len() && s[j3] == '"') {
                        None
                    } else {
                        match spec_parse_string_body(s, j3 + 1) {
                            None => None,
                            Some(val) => {
                                let j4 = spec_skip_ws(s, val.1);
                                if j4 < s.len() && s[j4] == '}' {
                                    Some((seq![(key.0, val.0)], j4 + 1))
                                } else if j4 < s.len() && s[j4] == ',' {
                                    proof {
                                        lemma_skip_ws_bounds(s, i);
                                        lemma_string_body_advances(s, j + 1);
                                        lemma_skip_ws_bounds(s, key.1);
                                        lemma_skip_ws_bounds(s, j2 + 1);
                                        lemma_string_body_advances(s, j3 + 1);
                                        lemma_skip_ws_bounds(s, val.1);
                                    }
                                    match spec_parse_members(s, j4 + 1) {
                                        None => None,
                                        Some(rest) => Some(
                                            (seq![(key.0, val.0)] + rest.0, rest.1),
                                        ),
                                    }
                                } else {
                                    None
                                }
                            },
                        }
                    }
                }
            },
        }
    }
}

pub proof fn lemma_members_advances(s: Seq<char>, i: int)
    requires
        0 <= i <= s.len(),
        spec_parse_members(s, i) is Some,
    ensures
        i < spec_parse_members(s, i).unwrap().1 <= s.len(),
    decreases s.len() - i,
{
    let j = spec_skip_ws(s, i);
    lemma_skip_ws_bounds(s, i);
    if j < s.len() && s[j] == '"' && spec_parse_string_body(s, j + 1) is Some {
        let key = spec_parse_string_body(s, j + 1).unwrap();
        lemma_string_body_advances(s, j + 1);
        let j2 = spec_skip_ws(s, key.1);
        lemma_skip_ws_bounds(s, key.1);
        if j2 < s.len() && s[j2] == ':' {
            let j3 = spec_skip_ws(s, j2 + 1);
            lemma_skip_ws_bounds(s, j2 + 1);
            if j3 < s.len() && s[j3] == '"' && spec_parse_string_body(s, j3 + 1) is Some {
                let val = spec_parse_string_body(s, j3 + 1).unwrap();
                lemma_string_body_advances(s, j3 + 1);
                let j4 = spec_skip_ws(s, val.1);
                lemma_skip_ws_bounds(s, val.1);
                if j4 < s.len() && s[j4] == '}' {
                } else if j4 < s.len() && s[j4] == ',' {
                    lemma_members_advances(s, j4 + 1);
                }
            }
        }
    }
}

/// Parse one sub-object (possibly empty) starting at `i`, leading
/// whitespace allowed. Returns its pairs and the position just after the
/// closing brace.
pub open spec fn spec_parse_object(s: Seq<char>, i: int) -> Option<(PairsV, int)> {
    let j = spec_skip_ws(s, i);
    if j < s.len() && s[j] == '{' {
        let k = spec_skip_ws(s, j + 1);
        if k < s.len() && s[k] == '}' {
            Some((Seq::empty(), k + 1))
        } else {
            spec_parse_members(s, j + 1)
        }
    } else {
        None
    }
}

pub proof fn lemma_object_advances(s: Seq<char>, i: int)
    requires
        0 <= i <= s.len(),
        spec_parse_object(s, i) is Some,
    ensures
        i < spec_parse_object(s, i).unwrap().1 <= s.len(),
{
    let j = spec_skip_ws(s, i);
    lemma_skip_ws_bounds(s, i);
    if j < s.len() && s[j] == '{' {
        let k = spec_skip_ws(s, j + 1);
        lemma_skip_ws_bounds(s, j + 1);
        if k < s.len() && s[k] == '}' {
        } else {
            lemma_members_advances(s, j + 1);
        }
    }
}

/// Parse the sections of the top-level object, starting just after its
/// opening brace or a separating comma. At least one section must follow.
pub open spec fn spec_parse_sections(s: Seq<char>, i: int) -> Option<(SectionsV, int)>
    decreases s.len() - i
        when 0 <= i <= s.len()
{
    let j = spec_skip_ws(s, i);
    if !(j < s.len() && s[j] == '"') {
        None
    } else {
        match spec_parse_string_body(s, j + 1) {
            None => None,
            Some(key) => {
                let j2 = spec_skip_ws(s, key.1);
                if !(j2 < s.len() && s[j2] == ':') {
                    None
                } else {
                    match spec_parse_object(s, j2 + 1) {
                        None => None,
                        Some(obj) => {
                            let j4 = spec_skip_ws(s, obj.1);
                            if j4 < s.len() && s[j4] == '}' {
                                Some((seq![(key.0, obj.0)], j4 + 1))
                            } else if j4 < s.len() && s[j4] == ',' {
                                proof {
                                    lemma_skip_ws_bounds(s, i);
                                    lemma_string_body_advances(s, j + 1);
                                    lemma_skip_ws_bounds(s, key.1);
                                    lemma_object_advances(s, j2 + 1);
                                    lemma_skip_ws_bounds(s, obj.1);
                                }
                                match spec_parse_sections(s, j4 + 1) {
                                    None => None,
                                    Some(rest) => Some((seq![(key.0, obj.0)] + rest.0, rest.1)),
                                }
                            } else {
                                None
                            }
                        },
                    }
                }
            },
        }
    }
}

pub proof fn lemma_sections_advances(s: Seq<char>, i: int)
    requires
        0 <= i <= s.len(),
        spec_parse_sections(s, i) is Some,
    ensures
        i < spec_parse_sections(s, i).unwrap().1 <= s.len(),
    decreases s.len() - i,
{
    let j = spec_skip_ws(s, i);
    lemma_skip_ws_bounds(s, i);
    if j < s.len() && s[j] == '"' && spec_parse_string_body(s, j + 1) is Some {
        let key = spec_parse_string_body(s, j + 1).unwrap();
        lemma_string_body_advances(s, j + 1);
        let j2 = spec_skip_ws(s, key.1);
        lemma_skip_ws_bounds(s, key.1);
        if j2 < s.len() && s[j2] == ':' && spec_parse_object(s, j2 + 1) is Some {
            let obj = spec_parse_object(s, j2 + 1).unwrap();
            lemma_object_advances(s, j2 + 1);
            let j4 = spec_skip_ws(s, obj.1);
            lemma_skip_ws_bounds(s, obj.1);
            if j4 < s.len() && s[j4] == '}' {
            } else if j4 < s.len() && s[j4] == ',' {
                lemma_sections_advances(s, j4 + 1);
            }
        }
    }
}

/// Parse a complete configuration text: one top-level object of named
/// sub-objects, with nothing but whitespace around it.
pub open spec fn spec_parse_top(s: Seq<char>) -> Option<SectionsV> {
    let j = spec_skip_ws(s, 0);
    if j < s.len() && s[j] == '{' {
        let k = spec_skip_ws(s, j + 1);
        let r = if k < s.len() && s[k] == '}' {
            Some((Seq::<(Seq<char>, PairsV)>::empty(), k + 1))
        } else {
            spec_parse_sections(s, j + 1)
        };
        match r {
            Some(secs) => {
                if spec_skip_ws(s, secs.1) == s.len() {
                    Some(secs.0)
                } else {
                    None
                }
            },
            None => None,
        }
    } else {
        None
    }
}

/// The pairs denoted by an executable pair vector.
pub open spec fn pairs_view(ps: Seq<(String, String)>) -> PairsV {
    ps.map_values(|p: (String, String)| (p.0@, p.1@))
}

/// The sections denoted by an executable section vector.
pub open spec fn sections_view(ss: Seq<(String, Vec<(String, String)>)>) -> SectionsV {
    ss.map_values(|p: (String, Vec<(String, String)>)| (p.0@, pairs_view(p.1@)))
}

fn skip_ws(s: &str, n: usize, i: usize) -> (j: usize)
    requires
        n == s@.len(),
        i <= n,
    ensures
        i <= j <= n,
        j == spec_skip_ws(s@, i as int),
{
    let mut j = i;
    while j < n
        invariant
            i <= j <= n,
            n == s@.len(),
            spec_skip_ws(s@, i as int) == spec_skip_ws(s@, j as int),
        decreases n - j,
    {
        let c = s.get_char(j);
        if !(c == ' ' || c == '\t' || c == '\n' || c == '\r') {
            return j;
        }
        j += 1;
    }
    j
}

fn unescape(e: char) -> (r: Option<char>)
    ensures
        r == spec_unescape(e),
{
    if e == '"' {
        Some('"')
    } else if e == '\\' {
        Some('\\')
    } else if e == '/' {
        Some('/')
    } else if e == 'b' {
        Some('\u{8}')
    } else if e == 'f' {
        Some('\u{c}')
    } else if e == 'n' {
        Some('\n')
    } else if e == 'r' {
        Some('\r')
    } else if e == 't' {
        Some('\t')
    } else {
        None
    }
}

fn hex_val(c: char) -> (r: Option<u32>)
    ensures
        r == spec_hex_val(c),
        r is Some ==> r.unwrap() <= 15,
{
    let u = c as u32;
    if u >= '0' as u32 && u <= '9' as u32 {
        Some(u - '0' as u32)
    } else if u >= 'a' as u32 && u <= 'f' as u32 {
        Some(u - 'a' as u32 + 10)
    } else if u >= 'A' as u32 && u <= 'F' as u32 {
        Some(u - 'A' as u32 + 10)
    } else {
        None
    }
}

fn hex4(s: &str, n: usize, i: usize) -> (r: Option<u32>)
    requires
        n == s@.len(),
        i <= n,
    ensures
        r == spec_hex4(s@, i as int),
        r is Some ==> r.unwrap() <= 0xFFFF,
{
    if n - i < 4 {
        return None;
    }
    let a;
    match hex_val(s.get_char(i)) {
        Some(v) => {
            a = v;
        },
        None => {
            return None;
        },
    }
    let b;
    match hex_val(s.get_char(i + 1)) {
        Some(v) => {
            b = v;
        },
        None => {
            return None;
        },
    }
    let c;
    match hex_val(s.get_char(i + 2)) {
        Some(v) => {
            c = v;
        },
        None => {
            return None;
        },
    }
    let d;
    match hex_val(s.get_char(i + 3)) {
        Some(v) => {
            d = v;
        },
        None => {
            return None;
        },
    }
    Some(a * 4096 + b * 256 + c * 16 + d)
}

fn parse_unicode_escape(s: &str, n: usize, i: usize) -> (r: Option<(char, usize)>)
    requires
        n == s@.len(),
        i <= n,
    ensures
        match r {
            Some(p) => {
                &&& spec_unicode_escape(s@, i as int) == Some((p.0, p.1 as int))
                &&& i < p.1 <= n
            },
            None => spec_unicode_escape(s@, i as int) is None,
        },
{
    let code;
    match hex4(s, n, i) {
        Some(v) => {
            code = v;
        },
        None => {
            return None;
        },
    }
    if code >= 0xD800 && code < 0xDC00 {
        if n - i < 10 {
            return None;
        }
        if s.get_char(i + 4) != '\\' {
            return None;
        }
        if s.get_char(i + 5) != 'u' {
            return None;
        }
        let low;
        match hex4(s, n, i + 6) {
            Some(v) => {
                low = v;
            },
            None => {
                return None;
            },
        }
        if !(low >= 0xDC00 && low < 0xE000) {
            return None;
        }
        let scalar = 0x10000 + (code - 0xD800) * 0x400 + (low - 0xDC00);
        match char::from_u32(scalar) {
            Some(ch) => {
                proof {
                    vstd::utf8::char_u32_cast(ch, scalar);
                }
                Some((ch, i + 10))
            },
            None => None,
        }
    } else if code >= 0xDC00 && code < 0xE000 {
        None
    } else {
        match char::from_u32(code) {
            Some(ch) => {
                proof {
                    vstd::utf8::char_u32_cast(ch, code);
                }
                Some((ch, i + 4))
            },
            None => None,
        }
    }
}

fn parse_string_body(s: &str, n: usize, i: usize) -> (r: Option<(String, usize)>)
    requires
        n == s@.len(),
        i <= n,
    ensures
        match r {
            Some(p) => {
                &&& spec_parse_string_body(s@, i as int) == Some((p.0@, p.1 as int))
                &&& i < p.1 <= n
            },
            None => spec_parse_string_body(s@, i as int) is None,
        },
{
    let mut acc = String::new();
    let mut j = i;
    loop
        invariant
            i <= j <= n,
            n == s@.len(),
            spec_parse_string_body(s@, i as int) == (match spec_parse_string_body(
                s@,
                j as int,
            ) {
                Some(p) => Some((acc@ + p.0, p.1)),
                None => None::<(Seq<char>, int)>,
            }),
        decreases n - j,
    {
        if j >= n {
            return None;
        }
        let c = s.get_char(j);
        if c == '"' {
            proof {
                assert(acc@ + Seq::<char>::empty() =~= acc@);
            }
            return Some((acc, j + 1));
        } else if c == '\\' {
            if j + 1 >= n {
                return None;
            }
            let e = s.get_char(j + 1);
            if e == 'u' {
                let decoded;
                match parse_unicode_escape(s, n, j + 2) {
                    Some(p) => {
                        decoded = p;
                    },
                    None => {
                        return None;
                    },
                }
                let ghost acc0 = acc@;
                acc.push(decoded.0);
                proof {
                    let rest = spec_parse_string_body(s@, decoded.1 as int);
                    if rest is Some {
                        let p = rest.unwrap();
                        assert(acc0 + (seq![decoded.0] + p.0) =~= (acc0.push(decoded.0)) + p.0);
                    }
                }
                j = decoded.1;
            } else {
                let d;
                match unescape(e) {
                    Some(d0) => {
                        d = d0;
                    },
                    None => {
                        return None;
                    },
                }
                let ghost acc0 = acc@;
                acc.push(d);
                proof {
                    let rest = spec_parse_string_body(s@, j as int + 2);
                    if rest is Some {
                        let p = rest.unwrap();
                        assert(acc0 + (seq![d] + p.0) =~= (acc0.push(d)) + p.0);
                    }
                }
                j += 2;
            }
        } else if (c as u32) < 32 {
            return None;
        } else {
            let ghost acc0 = acc@;
            acc.push(c);
            proof {
                let rest = spec_parse_string_body(s@, j as int + 1);
                if rest is Some {
                    let p = rest.unwrap();
                    assert(acc0 + (seq![c] + p.0) =~= (acc0.push(c)) + p.0);
                }
            }
            j += 1;
        }
    }
}

fn parse_members(s: &str, n: usize, i: usize) -> (r: Option<(Vec<(String, String)>, usize)>)
    requires
        n == s@.len(),
        i <= n,
    ensures
        match r {
            Some(p) => {
                &&& spec_parse_members(s@, i as int) == Some((pairs_view(p.0@), p.1 as int))
                &&& i < p.1 <= n
            },
            None => spec_parse_members(s@, i as int) is None,
        },
{
    let mut acc: Vec<(String, String)> = Vec::new();
    let mut cur = i;
    loop
        invariant
            i <= cur <= n,
            n == s@.len(),
            spec_parse_members(s@, i as int) == (match spec_parse_members(s@, cur as int) {
                Some(p) => Some((pairs_view(acc@) + p.0, p.1)),
                None => None::<(PairsV, int)>,
            }),
        decreases n - cur,
    {
        let j = skip_ws(s, n, cur);
        if j >= n {
            return None;
        }
        if s.get_char(j) != '"' {
            return None;
        }
        let key;
        match parse_string_body(s, n, j + 1) {
            Some(p) => {
                key = p;
            },
            None => {
                return None;
            },
        }
        let j2 = skip_ws(s, n, key.1);
        if j2 >= n {
            return None;
        }
        if s.get_char(j2) != ':' {
            return None;
        }
        let j3 = skip_ws(s, n, j2 + 1);
        if j3 >= n {
            return None;
        }
        if s.get_char(j3) != '"' {
            return None;
        }
        let val;
        match parse_string_body(s, n, j3 + 1) {
            Some(p) => {
                val = p;
            },
            None => {
                return None;
            },
        }
        let j4 = skip_ws(s, n, val.1);
        if j4 >= n {
            return None;
        }
        let c = s.get_char(j4);
        if c == '}' {
            let ghost acc0 = acc@;
            let ghost kv = (key.0@, val.0@);
            acc.push((key.0, val.0));
            proof {
                assert(pairs_view(acc@) =~= pairs_view(acc0) + seq![kv]);
            }
            return Some((acc, j4 + 1));
        } else if c == ',' {
            let ghost acc0 = acc@;
            let ghost kv = (key.0@, val.0@);
            acc.push((key.0, val.0));
            proof {
                assert(pairs_view(acc@) =~= pairs_view(acc0) + seq![kv]);
                let rest = spec_parse_members(s@, j4 as int + 1);
                if rest is Some {
                    let p = rest.unwrap();
                    assert(pairs_view(acc0) + (seq![kv] + p.0) =~= (pairs_view(acc0)
                        + seq![kv]) + p.0);
                }
            }
            cur = j4 + 1;
        } else {
            return None;
        }
    }
}

fn parse_object(s: &str, n: usize, i: usize) -> (r: Option<(Vec<(String, String)>, usize)>)
    requires
        n == s@.len(),
        i <= n,
    ensures
        match r {
            Some(p) => {
                &&& spec_parse_object(s@, i as int) == Some((pairs_view(p.0@), p.1 as int))
                &&& i < p.1 <= n
            },
            None => spec_parse_object(s@, i as int) is None,
        },
{
    let j = skip_ws(s, n, i);
    if j >= n {
        return None;
    }
    if s.get_char(j) != '{' {
        return None;
    }
    let k = skip_ws(s, n, j + 1);
    if k < n && s.get_char(k) == '}' {
        let empty: Vec<(String, String)> = Vec::new();
        proof {
            assert(pairs_view(empty@) =~= Seq::<(Seq<char>, Seq<char>)>::empty());
        }
        Some((empty, k + 1))
    } else {
        parse_members(s, n, j + 1)
    }
}

fn parse_sections(s: &str, n: usize, i: usize) -> (r: Option<
    (Vec<(String, Vec<(String, String)>)>, usize),
>)
    requires
        n == s@.len(),
        i <= n,
    ensures
        match r {
            Some(p) => {
                &&& spec_parse_sections(s@, i as int) == Some((sections_view(p.0@), p.1 as int))
                &&& i < p.1 <= n
            },
            None => spec_parse_sections(s@, i as int) is None,
        },
{
    let mut acc: Vec<(String, Vec<(String, String)>)> = Vec::new();
    let mut cur = i;
    loop
        invariant
            i <= cur <= n,
            n == s@.len(),
            spec_parse_sections(s@, i as int) == (match spec_parse_sections(s@, cur as int) {
                Some(p) => Some((sections_view(acc@) + p.0, p.1)),
                None => None::<(SectionsV, int)>,
            }),
        decreases n - cur,
    {
        let j = skip_ws(s, n, cur);
        if j >= n {
            return None;
        }
        if s.get_char(j) != '"' {
            return None;
        }
        let key;
        match parse_string_body(s, n, j + 1) {
            Some(p) => {
                key = p;
            },
            None => {
                return None;
            },
        }
        let j2 = skip_ws(s, n, key.1);
        if j2 >= n {
            return None;
        }
        if s.get_char(j2) != ':' {
            return None;
        }
        let obj;
        match parse_object(s, n, j2 + 1) {
            Some(p) => {
                obj = p;
            },
            None => {
                return None;
            },
        }
        let j4 = skip_ws(s, n, obj.1);
        if j4 >= n {
            return None;
        }
        let c = s.get_char(j4);
        if c == '}' {
            let ghost acc0 = acc@;
            let ghost kv = (key.0@, pairs_view(obj.0@));
            acc.push((key.0, obj.0));
            proof {
                assert(sections_view(acc@) =~= sections_view(acc0) + seq![kv]);
            }
            return Some((acc, j4 + 1));
        } else if c == ',' {
            let ghost acc0 = acc@;
            let ghost kv = (key.0@, pairs_view(obj.0@));
            acc.push((key.0, obj.0));
            proof {
                assert(sections_view(acc@) =~= sections_view(acc0) + seq![kv]);
                let rest = spec_parse_sections(s@, j4 as int + 1);
                if rest is Some {
                    let p = rest.unwrap();
                    assert(sections_view(acc0) + (seq![kv] + p.0) =~= (sections_view(acc0)
                        + seq![kv]) + p.0);
                }
            }
            cur = j4 + 1;
        } else {
            return None;
        }
    }
}

/// Parse a complete configuration text into its named sub-objects.
pub fn parse_top(s: &str) -> (r: Option<Vec<(String, Vec<(String, String)>)>>)
    ensures
        match r {
            Some(v) => spec_parse_top(s@) == Some(sections_view(v@)),
            None => spec_parse_top(s@) is None,
        },
{
    let n = s.unicode_len();
    let j = skip_ws(s, n, 0);
    if j >= n {
        return None;
    }
    if s.get_char(j) != '{' {
        return None;
    }
    let k = skip_ws(s, n, j + 1);
    let secs: Vec<(String, Vec<(String, String)>)>;
    let end: usize;
    if k < n && s.get_char(k) == '}' {
        secs = Vec::new();
        end = k + 1;
        proof {
            assert(sections_view(secs@) =~= Seq::<(Seq<char>, PairsV)>::empty());
        }
    } else {
        match parse_sections(s, n, j + 1) {
            Some(p) => {
                secs = p.0;
                end = p.1;
            },
            None => {
                return None;
            },
        }
    }
    let f = skip_ws(s, n, end);
    if f == n {
        Some(secs)
    } else {
        None
    }
}

/// Whether `ps` binds each key at most once.
pub open spec fn keys_distinct<T>(ps: Seq<(Seq<char>, T)>) -> bool {
    forall|i: int, j: int| 0 <= i < j < ps.len() ==> ps[i].0 != ps[j].0
}

/// Whether `ps` binds the key `k`.
pub open spec fn has_key<T>(ps: Seq<(Seq<char>, T)>, k: Seq<char>) -> bool {
    exists|i: int| 0 <= i < ps.len() && ps[i].0 == k
}

/// The value bound to the first occurrence of `k`.
pub open spec fn spec_lookup<T>(ps: Seq<(Seq<char>, T)>, k: Seq<char>) -> T
    recommends
        has_key(ps, k),
    decreases ps.len(),
{
    if ps.len() == 0 {
        arbitrary()
    } else if ps[0].0 == k {
        ps[0].1
    } else {
        spec_lookup(ps.drop_first(), k)
    }
}

pub proof fn lemma_lookup_at<T>(ps: Seq<(Seq<char>, T)>, k: Seq<char>, i: int)
    requires
        0 <= i < ps.len(),
        ps[i].0 == k,
        forall|j: int| 0 <= j < i ==> ps[j].0 != k,
    ensures
        has_key(ps, k),
        spec_lookup(ps, k) == ps[i].1,
    decreases ps.len(),
{
    if i == 0 {
    } else {
        lemma_lookup_at(ps.drop_first(), k, i - 1);
    }
}

/// Whether the executable pair list binds each key at most once.
pub fn keys_distinct_check(ps: &Vec<(String, String)>) -> (r: bool)
    ensures
        r == keys_distinct(pairs_view(ps@)),
{
    let len = ps.len();
    let mut i: usize = 0;
    while i < len
        invariant
            i <= len,
            len == ps@.len(),
            forall|a: int, b: int| 0 <= a < b < len && a < i ==> pairs_view(ps@)[a].0
                != pairs_view(ps@)[b].0,
        decreases len - i,
    {
        let mut j = i + 1;
        while j < len
            invariant
                i < j <= len,
                i < len,
                len == ps@.len(),
                forall|b: int| i < b < j ==> pairs_view(ps@)[i as int].0 != pairs_view(ps@)[b].0,
            decreases len - j,
        {
            if ps[i].0 == ps[j].0 {
                proof {
                    assert(pairs_view(ps@)[i as int].0 == ps@[i as int].0@);
                    assert(pairs_view(ps@)[j as int].0 == ps@[j as int].0@);
                }
                return false;
            }
            j += 1;
        }
        i += 1;
    }
    true
}

/// Look up `k` in the executable pair list; clones the first bound value.
pub fn lookup_pair(ps: &Vec<(String, String)>, k: &String) -> (r: Option<String>)
    ensures
        match r {
            Some(v) => has_key(pairs_view(ps@), k@) && v@ == spec_lookup(pairs_view(ps@), k@),
            None => !has_key(pairs_view(ps@), k@),
        },
{
    let len = ps.len();
    let mut i: usize = 0;
    while i < len
        invariant
            i <= len,
            len == ps@.len(),
            forall|j: int| 0 <= j < i ==> pairs_view(ps@)[j].0 != k@,
        decreases len - i,
    {
        if ps[i].0 == *k {
            let v = ps[i].1.clone();
            proof {
                lemma_lookup_at(pairs_view(ps@), k@, i as int);
            }
            return Some(v);
        }
        i += 1;
    }
    proof {
        assert forall|j: int| 0 <= j < pairs_view(ps@).len() implies pairs_view(ps@)[j].0
            != k@ by {}
    }
    None
}

/// One escaped character of a JSON string literal.
pub open spec fn esc_char(c: char) -> Seq<char> {
    if c == '"' {
        seq!['\\', '"']
    } else if c == '\\' {
        seq!['\\', '\\']
    } else if c == '\u{8}' {
        seq!['\\', 'b']
    } else if c == '\u{c}' {
        seq!['\\', 'f']
    } else if c == '\n' {
        seq!['\\', 'n']
    } else if c == '\r' {
        seq!['\\', 'r']
    } else if c == '\t' {
        seq!['\\', 't']
    } else {
        seq![c]
    }
}

/// The escaped form of a string value.
pub open spec fn json_escape(v: Seq<char>) -> Seq<char>
    decreases v.len(),
{
    if v.len() == 0 {
        Seq::empty()
    } else {
        esc_char(v[0]) + json_escape(v.drop_first())
    }
}

/// A quoted, escaped JSON string literal.
pub open spec fn json_quoted(v: Seq<char>) -> Seq<char> {
    seq!['"'] + json_escape(v) + seq!['"']
}

/// One `"key":"value"` member, preceded by a comma unless it is first.
pub open spec fn json_member(first: bool, k: Seq<char>, v: Seq<char>) -> Seq<char> {
    (if first {
        Seq::<char>::empty()
    } else {
        seq![',']
    }) + seq!['"'] + k + seq!['"', ':'] + json_quoted(v)
}

/// Append the quoted, escaped form of `v`.
pub fn append_json_quoted(out: &mut String, v: &str)
    ensures
        final(out)@ == old(out)@ + json_quoted(v@),
{
    out.push('"');
    let n = v.unicode_len();
    let mut j: usize = 0;
    while j < n
        invariant
            j <= n,
            n == v@.len(),
            out@ == old(out)@ + seq!['"'] + json_escape(v@.take(j as int)),
        decreases n - j,
    {
        let ghost out0 = out@;
        let c = v.get_char(j);
        if c == '"' {
            out.push('\\');
            out.push('"');
        } else if c == '\\' {
            out.push('\\');
            out.push('\\');
        } else if c == '\u{8}' {
            out.push('\\');
            out.push('b');
        } else if c == '\u{c}' {
            out.push('\\');
            out.push('f');
        } else if c == '\n' {
            out.push('\\');
            out.push('n');
        } else if c == '\r' {
            out.push('\\');
            out.push('r');
        } else if c == '\t' {
            out.push('\\');
            out.push('t');
        } else {
            out.push(c);
        }
        proof {
            assert(out@ =~= out0 + esc_char(v@[j as int]));
            lemma_json_escape_take(v@, j as int);
            assert(out@ =~= old(out)@ + seq!['"'] + json_escape(v@.take(j as int + 1)));
        }
        j += 1;
    }
    proof {
        assert(v@.take(n as int) =~= v@);
    }
    out.push('"');
    proof {
        assert(old(out)@ + seq!['"'] + json_escape(v@) + seq!['"'] =~= old(out)@ + json_quoted(
            v@,
        ));
    }
}

proof fn lemma_json_escape_take(v: Seq<char>, j: int)
    requires
        0 <= j < v.len(),
    ensures
        json_escape(v.take(j + 1)) == json_escape(v.take(j)) + esc_char(v[j]),
    decreases j,
{
    if j == 0 {
        assert(v.take(1) =~= seq![v[0]]);
        assert(v.take(0) =~= Seq::<char>::empty());
        assert(seq![v[0]].drop_first() =~= Seq::<char>::empty());
        assert(json_escape(Seq::<char>::empty()) == Seq::<char>::empty());
        assert(json_escape(v.take(1)) == esc_char(v[0]) + json_escape(Seq::<char>::empty()));
        assert(esc_char(v[0]) + Seq::<char>::empty() =~= esc_char(v[0]));
        assert(Seq::<char>::empty() + esc_char(v[0]) =~= esc_char(v[0]));
        assert(json_escape(v.take(0)) + esc_char(v[0]) =~= esc_char(v[0]));
    } else {
        lemma_json_escape_take(v.drop_first(), j - 1);
        assert(v.take(j + 1).drop_first() =~= v.drop_first().take(j));
        assert(v.take(j).drop_first() =~= v.drop_first().take(j - 1));
        assert(json_escape(v.take(j + 1)) == esc_char(v[0]) + json_escape(v.drop_first().take(j)));
        assert(json_escape(v.take(j)) == esc_char(v[0]) + json_escape(v.drop_first().take(j - 1)));
        assert(esc_char(v[0]) + (json_escape(v.drop_first().take(j - 1)) + esc_char(
            v.drop_first()[j - 1],
        )) =~= (esc_char(v[0]) + json_escape(v.drop_first().take(j - 1))) + esc_char(v[j]));
    }
}

/// Append one member, with its separating comma unless it is first. The key
/// is emitted verbatim; keys of this schema need no escaping.
pub fn append_json_member(out: &mut String, first: bool, key: &str, val: &str)
    ensures
        final(out)@ == old(out)@ + json_member(first, key@, val@),
{
    if !first {
        out.push(',');
    }
    out.push('"');
    out.append(key);
    out.push('"');
    out.push(':');
    append_json_quoted(out, val);
    proof {
        assert(out@ =~= old(out)@ + json_member(first, key@, val@));
    }
}

/// The members of an object, serialized in order.
pub open spec fn json_members_seq(pairs: PairsV, first: bool) -> Seq<char>
    decreases pairs.len(),
{
    if pairs.len() == 0 {
        Seq::empty()
    } else {
        json_member(first, pairs[0].0, pairs[0].1) + json_members_seq(pairs.drop_first(), false)
    }
}

/// A whole object: the members between braces.
pub open spec fn json_object_of(pairs: PairsV) -> Seq<char> {
    seq!['{'] + json_members_seq(pairs, true) + seq!['}']
}

pub proof fn lemma_json_members_unfold(pairs: PairsV, first: bool)
    requires
        pairs.len() > 0,
    ensures
        json_members_seq(pairs, first) == json_member(first, pairs[0].0, pairs[0].1)
            + json_members_seq(pairs.drop_first(), false),
{
}

} // verus!
