//! The browser user-agent record and its rendering into one header line.

use vstd::prelude::*;
use vstd::string::StringExecFns;

verus! {

/// Six ordered tokens whose space-joined concatenation is the HTTP
/// `User-Agent` line.
#[derive(Debug)]
pub struct UserAuthAgent {
    pub compatibility_token: String,
    pub platform: String,
    pub rendering_engine: String,
    pub compatibility_tags: String,
    pub browser_identity: String,
    pub safari_compatibility: String,
}

/// Holds when every token of `u` carries its default value.
pub open spec fn is_default_ua(u: UserAuthAgent) -> bool {
    &&& u.compatibility_token@ == "Mozilla/5.0"@
    &&& u.platform@ == "(Windows NT 10.0; Win64; x64)"@
    &&& u.rendering_engine@ == "AppleWebKit/537.36"@
    &&& u.compatibility_tags@ == "(KHTML, like Gecko)"@
    &&& u.browser_identity@ == "Chrome/142.0.0.0"@
    &&& u.safari_compatibility@ == "Safari/537.36"@
}

/// The rendering of a default user agent: the six default tokens joined by
/// single spaces.
pub open spec fn default_ua_rendered() -> Seq<char> {
    "Mozilla/5.0"@ + " "@ + "(Windows NT 10.0; Win64; x64)"@ + " "@ + "AppleWebKit/537.36"@ + " "@
        + "(KHTML, like Gecko)"@ + " "@ + "Chrome/142.0.0.0"@ + " "@ + "Safari/537.36"@
}

impl UserAuthAgent {
    /// The user-agent line denoted by this record: the six tokens joined by
    /// single spaces, emitted verbatim.
    pub open spec fn rendered(self) -> Seq<char> {
        self.compatibility_token@ + " "@ + self.platform@ + " "@ + self.rendering_engine@ + " "@
            + self.compatibility_tags@ + " "@ + self.browser_identity@ + " "@
            + self.safari_compatibility@
    }

    /// Construct the default browser handshake identity.
    pub fn new() -> (r: Self)
        ensures
            is_default_ua(r),
    {
        Self::default()
    }

    /// Render the record as the single `User-Agent` header line.
    pub fn render(&self) -> (r: String)
        ensures
            r@ == self.rendered(),
    {
        let mut out = String::new();
        out.append(self.compatibility_token.as_str());
        out.append(" ");
        out.append(self.platform.as_str());
        out.append(" ");
        out.append(self.rendering_engine.as_str());
        out.append(" ");
        out.append(self.compatibility_tags.as_str());
        out.append(" ");
        out.append(self.browser_identity.as_str());
        out.append(" ");
        out.append(self.safari_compatibility.as_str());
        out
    }
}

impl Default for UserAuthAgent {
    fn default() -> (r: Self)
        ensures
            is_default_ua(r),
    {
        Self {
            compatibility_token: String::from_str("Mozilla/5.0"),
            platform: String::from_str("(Windows NT 10.0; Win64; x64)"),
            rendering_engine: String::from_str("AppleWebKit/537.36"),
            compatibility_tags: String::from_str("(KHTML, like Gecko)"),
            browser_identity: String::from_str("Chrome/142.0.0.0"),
            safari_compatibility: String::from_str("Safari/537.36"),
        }
    }
}

/// A default user agent renders to the six default tokens joined by spaces.
pub proof fn lemma_default_ua_rendering(u: UserAuthAgent)
    requires
        is_default_ua(u),
    ensures
        u.rendered() == default_ua_rendered(),
{
}

/// The default rendering is exactly the canonical desktop-browser line.
pub proof fn lemma_default_ua_literal()
    ensures
        default_ua_rendered()
            == "Mozilla/5.0 (Windows NT 10.0; Win64; x64) AppleWebKit/537.36 (KHTML, like Gecko) Chrome/142.0.0.0 Safari/537.36"@,
{
    reveal_strlit("Mozilla/5.0");
    reveal_strlit("(Windows NT 10.0; Win64; x64)");
    reveal_strlit("AppleWebKit/537.36");
    reveal_strlit("(KHTML, like Gecko)");
    reveal_strlit("Chrome/142.0.0.0");
    reveal_strlit("Safari/537.36");
    reveal_strlit(" ");
    reveal_strlit(
        "Mozilla/5.0 (Windows NT 10.0; Win64; x64) AppleWebKit/537.36 (KHTML, like Gecko) Chrome/142.0.0.0 Safari/537.36",
    );
    assert(default_ua_rendered()
        =~= "Mozilla/5.0 (Windows NT 10.0; Win64; x64) AppleWebKit/537.36 (KHTML, like Gecko) Chrome/142.0.0.0 Safari/537.36"@);
}

/// Number of occurrences of `c` in `s`.
pub open spec fn count_char(s: Seq<char>, c: char) -> nat
    decreases s.len(),
{
    if s.len() == 0 {
        0
    } else {
        (if s[0] == c {
            1nat
        } else {
            0nat
        }) + count_char(s.drop_first(), c)
    }
}

pub broadcast proof fn lemma_count_char_concat(a: Seq<char>, b: Seq<char>, c: char)
    ensures
        #[trigger] count_char(a + b, c) == count_char(a, c) + count_char(b, c),
    decreases a.len(),
{
    if a.len() == 0 {
        assert(a + b =~= b);
    } else {
        lemma_count_char_concat(a.drop_first(), b, c);
        assert((a + b).drop_first() =~= a.drop_first() + b);
    }
}

/// A rendering joins its six tokens with exactly five single-space
/// separators: when no token itself contains a space, the rendered line
/// holds exactly five spaces.
pub proof fn lemma_ua_five_separators(u: UserAuthAgent)
    requires
        count_char(u.compatibility_token@, ' ') == 0,
        count_char(u.platform@, ' ') == 0,
        count_char(u.rendering_engine@, ' ') == 0,
        count_char(u.compatibility_tags@, ' ') == 0,
        count_char(u.browser_identity@, ' ') == 0,
        count_char(u.safari_compatibility@, ' ') == 0,
    ensures
        count_char(u.rendered(), ' ') == 5,
{
    broadcast use lemma_count_char_concat;

    reveal_strlit(" ");
    assert(" "@.len() == 1 && " "@[0] == ' ');
    assert(" "@.drop_first() =~= Seq::<char>::empty());
    assert(count_char(Seq::<char>::empty(), ' ') == 0);
    assert(count_char(" "@, ' ') == 1);
}

} // verus!
