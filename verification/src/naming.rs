//! The naming client's decision logic: building the request body, and
//! classifying the service's answer into a usable base name.
//!
//! The HTTP exchange itself belongs to the surrounding application; it
//! hands the outcome over as a [`NamingResponse`] and acts on the
//! resulting [`NamingVerdict`].  Suggested names come from an untrusted
//! service, so they are trimmed of surrounding ASCII whitespace and
//! stripped of path separators before they may touch the filesystem;
//! anything left empty falls back to the default name.

use vstd::prelude::*;

use crate::pathops::dest_path_of;

verus! {

/// The base name used whenever the service cannot supply one.
pub open spec fn default_name() -> Seq<char> {
    "screenshot"@
}

/// ASCII whitespace, as trimmed from suggested names.
pub open spec fn is_space(c: char) -> bool {
    c == ' ' || c == '\t' || c == '\n' || c == '\r' || c == '\u{b}' || c == '\u{c}'
}

/// A character that separates path components and must never appear in a
/// base name.
pub open spec fn is_path_sep(c: char) -> bool {
    c == '/' || c == '\\'
}

/// `s` without its leading whitespace.
pub open spec fn trim_start_of(s: Seq<char>) -> Seq<char>
    decreases s.len(),
{
    if s.len() > 0 && is_space(s[0]) {
        trim_start_of(s.drop_first())
    } else {
        s
    }
}

/// `s` without its trailing whitespace.
pub open spec fn trim_end_of(s: Seq<char>) -> Seq<char>
    decreases s.len(),
{
    if s.len() > 0 && is_space(s.last()) {
        trim_end_of(s.drop_last())
    } else {
        s
    }
}

/// `s` without surrounding whitespace.
pub open spec fn trim_of(s: Seq<char>) -> Seq<char> {
    trim_end_of(trim_start_of(s))
}

/// `s` with every path separator removed.
pub open spec fn strip_seps(s: Seq<char>) -> Seq<char>
    decreases s.len(),
{
    if s.len() == 0 {
        Seq::empty()
    } else if is_path_sep(s.last()) {
        strip_seps(s.drop_last())
    } else {
        strip_seps(s.drop_last()).push(s.last())
    }
}

/// What a raw suggested name becomes before any filesystem use: trimmed,
/// then stripped of separators.
pub open spec fn sanitized_name_of(raw: Seq<char>) -> Seq<char> {
    strip_seps(trim_of(raw))
}

/// The sanitizer never leaves a path separator in the name.
pub proof fn lemma_sanitized_no_separators(s: Seq<char>)
    ensures
        forall|j: int| 0 <= j < strip_seps(s).len() ==> !is_path_sep(strip_seps(s)[j]),
    decreases s.len(),
{
    if s.len() > 0 {
        lemma_sanitized_no_separators(s.drop_last());
        if !is_path_sep(s.last()) {
            let t = strip_seps(s.drop_last());
            assert forall|j: int| 0 <= j < strip_seps(s).len() implies !is_path_sep(
                strip_seps(s)[j],
            ) by {
                assert(strip_seps(s) == t.push(s.last()));
                if j < t.len() {
                    assert(strip_seps(s)[j] == t[j]);
                } else {
                    assert(strip_seps(s)[j] == s.last());
                }
            }
        }
    }
}

/// Whether `c` counts as ASCII whitespace.
fn is_space_char(c: char) -> (r: bool)
    ensures
        r == is_space(c),
{
    c == ' ' || c == '\t' || c == '\n' || c == '\r' || c == '\u{b}' || c == '\u{c}'
}

/// `s` without surrounding ASCII whitespace.
pub fn trim_str(s: &str) -> (r: &str)
    ensures
        r@ == trim_of(s@),
{
    let n = s.unicode_len();
    let mut a: usize = 0;
    proof {
        assert(s@.subrange(0, n as int) =~= s@);
    }
    while a < n && is_space_char(s.get_char(a))
        invariant
            a <= n,
            n == s@.len(),
            trim_start_of(s@) == trim_start_of(s@.subrange(a as int, n as int)),
        decreases n - a,
    {
        proof {
            assert(s@.subrange(a as int, n as int).drop_first() =~= s@.subrange(
                a as int + 1,
                n as int,
            ));
        }
        a = a + 1;
    }
    assert(trim_start_of(s@) == s@.subrange(a as int, n as int));
    let mut b: usize = n;
    while b > a && is_space_char(s.get_char(b - 1))
        invariant
            a <= b <= n,
            n == s@.len(),
            trim_start_of(s@) == s@.subrange(a as int, n as int),
            trim_end_of(s@.subrange(a as int, n as int)) == trim_end_of(
                s@.subrange(a as int, b as int),
            ),
        decreases b,
    {
        proof {
            assert(s@.subrange(a as int, b as int).drop_last() =~= s@.subrange(
                a as int,
                b as int - 1,
            ));
        }
        b = b - 1;
    }
    let r = s.substring_char(a, b);
    assert(r@ =~= trim_of(s@));
    r
}

/// `s` with every `/` and `\` removed, fit for use as a file's base name.
pub fn sanitize_base_name(s: &str) -> (r: String)
    ensures
        r@ == strip_seps(s@),
{
    let n = s.unicode_len();
    let mut out = String::new();
    let mut i: usize = 0;
    proof {
        assert(s@.subrange(0, 0) =~= Seq::<char>::empty());
    }
    while i < n
        invariant
            i <= n,
            n == s@.len(),
            out@ == strip_seps(s@.subrange(0, i as int)),
        decreases n - i,
    {
        let c = s.get_char(i);
        proof {
            assert(s@.subrange(0, i as int + 1).drop_last() =~= s@.subrange(0, i as int));
        }
        if !(c == '/' || c == '\\') {
            out.append(s.substring_char(i, i + 1));
            proof {
                assert(out@ =~= strip_seps(s@.subrange(0, i as int + 1)));
            }
        }
        i = i + 1;
    }
    proof {
        assert(s@.subrange(0, n as int) =~= s@);
    }
    out
}

/// The character of the lowercase hexadecimal alphabet at position `d`.
pub open spec fn hex_digit(d: int) -> char {
    "0123456789abcdef"@[d]
}

/// How one character appears inside a JSON string literal: quotes and
/// backslashes escaped, control characters in `\u00XX` form, everything
/// else as itself.
pub open spec fn escaped_char(c: char) -> Seq<char> {
    if c == '"' {
        seq!['\\', '"']
    } else if c == '\\' {
        seq!['\\', '\\']
    } else if (c as int) < 32 {
        seq!['\\', 'u', '0', '0', hex_digit(c as int / 16), hex_digit(c as int % 16)]
    } else {
        seq![c]
    }
}

/// `s` escaped for inclusion in a JSON string literal.
pub open spec fn json_escaped(s: Seq<char>) -> Seq<char>
    decreases s.len(),
{
    if s.len() == 0 {
        Seq::empty()
    } else {
        json_escaped(s.drop_last()) + escaped_char(s.last())
    }
}

/// Appends `s` to `out`, escaped for a JSON string literal.
fn append_json_escaped(out: &mut String, s: &str)
    ensures
        final(out)@ == old(out)@ + json_escaped(s@),
{
    let n = s.unicode_len();
    let mut i: usize = 0;
    proof {
        assert(s@.subrange(0, 0) =~= Seq::<char>::empty());
        assert(out@ + json_escaped(s@.subrange(0, 0)) =~= out@);
        reveal_strlit("0123456789abcdef");
        reveal_strlit("\\\"");
        reveal_strlit("\\\\");
        reveal_strlit("\\u00");
    }
    let ghost start = out@;
    while i < n
        invariant
            i <= n,
            n == s@.len(),
            "0123456789abcdef"@.len() == 16,
            out@ == start + json_escaped(s@.subrange(0, i as int)),
        decreases n - i,
    {
        let c = s.get_char(i);
        proof {
            assert(s@.subrange(0, i as int + 1).drop_last() =~= s@.subrange(0, i as int));
            reveal_strlit("\\\"");
            reveal_strlit("\\\\");
            reveal_strlit("\\u00");
        }
        if c == '"' {
            out.append("\\\"");
            assert(("\\\"")@ =~= escaped_char('"'));
        } else if c == '\\' {
            out.append("\\\\");
            assert(("\\\\")@ =~= escaped_char('\\'));
        } else if (c as u32) < 32 {
            let code = c as u32;
            let hi = (code / 16) as usize;
            let lo = (code % 16) as usize;
            out.append("\\u00");
            out.append("0123456789abcdef".substring_char(hi, hi + 1));
            out.append("0123456789abcdef".substring_char(lo, lo + 1));
            proof {
                assert(("\\u00")@ + "0123456789abcdef"@.subrange(hi as int, hi + 1)
                    + "0123456789abcdef"@.subrange(lo as int, lo + 1) =~= escaped_char(c));
            }
        } else {
            out.append(s.substring_char(i, i + 1));
            assert(s@.subrange(i as int, i as int + 1) =~= escaped_char(c));
        }
        assert(out@ =~= start + json_escaped(s@.subrange(0, i as int + 1)));
        i = i + 1;
    }
    proof {
        assert(s@.subrange(0, n as int) =~= s@);
    }
}

/// The JSON body of a naming request: the image content as a `data:` URL
/// of its base64 encoding, with the caller's device id and app version.
pub open spec fn naming_request_of(
    encoded: Seq<char>,
    device_id: Seq<char>,
    app_version: Seq<char>,
) -> Seq<char> {
    "{\"base64Img\":\"data:image/png;base64,"@ + json_escaped(encoded)
        + "\",\"deviceId\":\""@ + json_escaped(device_id) + "\",\"appVersion\":\""@
        + json_escaped(app_version) + "\"}"@
}

/// Builds the JSON request body sent to the naming service.
pub fn build_naming_request(encoded: &str, device_id: &str, app_version: &str) -> (r: String)
    ensures
        r@ == naming_request_of(encoded@, device_id@, app_version@),
{
    let mut out = String::new();
    out.append("{\"base64Img\":\"data:image/png;base64,");
    append_json_escaped(&mut out, encoded);
    out.append("\",\"deviceId\":\"");
    append_json_escaped(&mut out, device_id);
    out.append("\",\"appVersion\":\"");
    append_json_escaped(&mut out, app_version);
    out.append("\"}");
    assert(out@ =~= naming_request_of(encoded@, device_id@, app_version@));
    out
}

/// The parsed success envelope of a naming reply.
#[derive(Clone, Debug)]
pub struct Envelope {
    pub success: bool,
    pub message: String,
    pub screenshot_name: String,
}

/// The observable outcome of one naming request, as the application hands
/// it over: either the request could not be sent at all, or a status came
/// back, with the envelope when one parsed.
#[derive(Clone, Debug)]
pub enum NamingResponse {
    /// The request never reached the service.
    TransportFailure,
    /// The service answered with this status; `envelope` holds the parsed
    /// body when the status was a success and the body was well-formed.
    Response { status: u16, envelope: Option<Envelope> },
}

/// What the pipeline does with a naming reply.
#[derive(Clone, Debug)]
pub enum NamingVerdict {
    /// Use this sanitized, non-empty base name.
    Named { name: String },
    /// Use the default name; nothing to tell the user.
    Fallback,
    /// Use the default name and surface the rate-limit notice; the
    /// request must not be retried.
    QuotaExceeded,
}

/// Whether the reply carries a usable name: a success status, a parsed
/// envelope that reports success, and a name that survives sanitizing.
pub open spec fn response_named(resp: NamingResponse) -> bool {
    match resp {
        NamingResponse::TransportFailure => false,
        NamingResponse::Response { status, envelope } => 200 <= status && status <= 299
            && match envelope {
            Some(env) => env.success && sanitized_name_of(env.screenshot_name@).len() > 0,
            None => false,
        },
    }
}

/// Whether the reply is the rate-limit signal.
pub open spec fn response_quota(resp: NamingResponse) -> bool {
    match resp {
        NamingResponse::Response { status, envelope } => status == 429,
        NamingResponse::TransportFailure => false,
    }
}

/// The base name the pipeline uses for this reply: the sanitized
/// suggestion when one is usable, the default otherwise.
pub open spec fn chosen_base_name(resp: NamingResponse) -> Seq<char> {
    if response_named(resp) {
        match resp {
            NamingResponse::Response { status, envelope } => match envelope {
                Some(env) => sanitized_name_of(env.screenshot_name@),
                None => default_name(),
            },
            NamingResponse::TransportFailure => default_name(),
        }
    } else {
        default_name()
    }
}

/// Classifies one naming reply, exactly once per request: 429 is the
/// distinct quota signal; a success status with a well-formed envelope
/// reporting success yields the sanitized suggested name when it is
/// non-empty; every other outcome falls back to the default name.
pub fn classify_naming_response(resp: &NamingResponse) -> (v: NamingVerdict)
    ensures
        match v {
            NamingVerdict::Named { name } => response_named(*resp) && name@ == chosen_base_name(
                *resp,
            ),
            NamingVerdict::QuotaExceeded => response_quota(*resp),
            NamingVerdict::Fallback => !response_named(*resp) && !response_quota(*resp),
        },
{
    match resp {
        NamingResponse::TransportFailure => NamingVerdict::Fallback,
        NamingResponse::Response { status, envelope } => {
            if *status == 429 {
                NamingVerdict::QuotaExceeded
            } else if 200 <= *status && *status <= 299 {
                match envelope {
                    Some(env) => {
                        if env.success {
                            let trimmed = trim_str(env.screenshot_name.as_str());
                            let clean = sanitize_base_name(trimmed);
                            if clean.unicode_len() > 0 {
                                NamingVerdict::Named { name: clean }
                            } else {
                                NamingVerdict::Fallback
                            }
                        } else {
                            NamingVerdict::Fallback
                        }
                    },
                    None => NamingVerdict::Fallback,
                }
            } else {
                NamingVerdict::Fallback
            }
        },
    }
}

/// The base name a verdict resolves to: the carried name, or the default.
pub fn verdict_base_name(v: &NamingVerdict) -> (r: String)
    ensures
        match v {
            NamingVerdict::Named { name } => r@ == name@,
            _ => r@ == default_name(),
        },
{
    match v {
        NamingVerdict::Named { name } => name.clone(),
        _ => String::from_str("screenshot"),
    }
}

/// One screenshot's resolved outcome: what the reply was judged to be,
/// the base name to use, and the full path the file is renamed to.
pub struct RenamePlan {
    pub verdict: NamingVerdict,
    pub base_name: String,
    pub destination: String,
}

/// Resolves one naming reply against the screenshot's path: classifies
/// the reply, picks the base name, and computes the rename destination.
pub fn plan_rename(path: &str, resp: &NamingResponse) -> (r: RenamePlan)
    ensures
        match r.verdict {
            NamingVerdict::Named { name } => response_named(*resp) && name@ == chosen_base_name(
                *resp,
            ),
            NamingVerdict::QuotaExceeded => response_quota(*resp),
            NamingVerdict::Fallback => !response_named(*resp) && !response_quota(*resp),
        },
        r.base_name@ == chosen_base_name(*resp),
        r.destination@ == dest_path_of(path@, chosen_base_name(*resp)),
{
    let verdict = classify_naming_response(resp);
    let base_name = verdict_base_name(&verdict);
    let destination = crate::pathops::rename_destination(path, base_name.as_str());
    RenamePlan { verdict, base_name, destination }
}

}
