//! The fingerprint of an occurrence: the title that a report shows, its
//! normalized signature, and the deduplication key derived from them.
use vstd::prelude::*;
use vstd::string::*;
use vstd::utf8::encode_utf8;

use crate::event::EventFileLocation;
use crate::text::{decimal, push_decimal, to_upper_hex, upper_hex};

verus! {

/// Longest run of title characters kept when the location tag is empty.
pub const TITLE_BUDGET: usize = 487;

pub const HEX_RUN: &'static str = r"[0-9a-f]{8,}";

pub const UUID_TOKEN: &'static str = r"\b[0-9a-f]{8}-([0-9a-f]{4}-){3}[0-9a-f]{12}\b";

pub const INTEGER_TOKEN: &'static str = r"\b\d+\b";

pub const EMAIL_TOKEN: &'static str = r"[A-Za-z0-9._%+-]+@[A-Za-z0-9.-]+\.[A-Za-z]{2,}";

pub const IPV4_TOKEN: &'static str = r"\b(?:\d{1,3}\.){3}\d{1,3}\b";

pub const QUOTED_TEXT: &'static str = r#""[^"]*"|'[^']*'"#;

pub const MIXED_CASE_IDENT: &'static str = r"\b[a-z0-9_]*[A-Z][A-Za-z0-9_]*\b";

pub const DIGIT_IDENT: &'static str = r"\b[a-z_]+\d+[a-z0-9_]*\b";

pub const WHITESPACE_RUN: &'static str = r"\s+";

/// What `str::to_lowercase` returns for a text.
pub uninterp spec fn lowercase_of(s: Seq<char>) -> Seq<char>;


/// The text with every leftmost-first match of a regular expression replaced.
pub uninterp spec fn regex_replaced(pattern: Seq<char>, text: Seq<char>, replacement: Seq<char>) -> Seq<char>;

/// The hash that std's default hasher gives a string.
pub uninterp spec fn default_hash_of(s: Seq<char>) -> u64;

/// The SHA-256 digest of a byte sequence.
pub uninterp spec fn sha256_of(data: Seq<u8>) -> Seq<u8>;

/// Relies on `str::to_lowercase`: the result depends on the characters alone.
#[verifier::external_body]
fn lowercase(s: &str) -> (r: String)
    ensures
        r@ == lowercase_of(s@),
{
    s.to_lowercase()
}

/// A code point with the Unicode property White_Space.
pub open spec fn is_white_space(c: char) -> bool {
    let u = c as u32;
    ||| 0x09 <= u <= 0x0d
    ||| u == 0x20
    ||| u == 0x85
    ||| u == 0xa0
    ||| u == 0x1680
    ||| 0x2000 <= u <= 0x200a
    ||| u == 0x2028
    ||| u == 0x2029
    ||| u == 0x202f
    ||| u == 0x205f
    ||| u == 0x3000
}

/// The text without its leading white space.
pub open spec fn trim_start(s: Seq<char>) -> Seq<char>
    decreases s.len(),
{
    if s.len() > 0 && is_white_space(s[0]) {
        trim_start(s.drop_first())
    } else {
        s
    }
}

/// The text without its trailing white space.
pub open spec fn trim_end(s: Seq<char>) -> Seq<char>
    decreases s.len(),
{
    if s.len() > 0 && is_white_space(s.last()) {
        trim_end(s.drop_last())
    } else {
        s
    }
}

/// The text without leading and trailing white space.
pub open spec fn trimmed(s: Seq<char>) -> Seq<char> {
    trim_end(trim_start(s))
}

/// Relies on `str::trim`, which removes leading and trailing code points
/// with the Unicode property White_Space.
#[verifier::external_body]
fn trim(s: &str) -> (r: String)
    ensures
        r@ == trimmed(s@),
{
    s.trim().to_string()
}

/// The patterns of the normalization, each a valid regular expression.
pub open spec fn is_normalization_pattern(p: Seq<char>) -> bool {
    ||| p == HEX_RUN@
    ||| p == UUID_TOKEN@
    ||| p == INTEGER_TOKEN@
    ||| p == EMAIL_TOKEN@
    ||| p == IPV4_TOKEN@
    ||| p == QUOTED_TEXT@
    ||| p == MIXED_CASE_IDENT@
    ||| p == DIGIT_IDENT@
    ||| p == WHITESPACE_RUN@
}

/// Relies on `regex::Regex::new` to compile `pattern`, which fails only on
/// an invalid pattern or one past the size limit (neither holds of the
/// normalization's patterns), and on `Regex::replace_all` to substitute
/// every match.
#[verifier::external_body]
fn replace_matches(pattern: &str, text: &str, replacement: &str) -> (r: String)
    requires
        is_normalization_pattern(pattern@),
    ensures
        r@ == regex_replaced(pattern@, text@, replacement@),
{
    regex::Regex::new(pattern).unwrap().replace_all(text, replacement).into_owned()
}

/// Relies on `BuildHasher::hash_one` with std's `DefaultHasher`, whose
/// instances made by `new` or `default` all hash alike.
#[verifier::external_body]
fn default_hash(s: &str) -> (r: u64)
    ensures
        r == default_hash_of(s@),
{
    std::hash::BuildHasher::hash_one(
        &std::hash::BuildHasherDefault::<std::hash::DefaultHasher>::default(),
        s,
    )
}

/// Relies on `sha2::Sha256` through `Digest::digest`: a 32-byte digest.
#[verifier::external_body]
fn sha256(data: &[u8]) -> (r: Vec<u8>)
    ensures
        r@ == sha256_of(data@),
        r@.len() == 32,
{
    <sha2::Sha256 as sha2::Digest>::digest(data).to_vec()
}

/// `"<file>:<line>"`, or `"Unknown"` without a location.
pub open spec fn location_tag(location: Option<EventFileLocation>) -> Seq<char> {
    match location {
        Some(l) => l.file@ + ":"@ + decimal(l.line as nat),
        None => "Unknown"@,
    }
}

/// How many characters of the title are kept next to a location tag of
/// `tag_len` characters.
pub open spec fn title_budget(tag_len: nat) -> nat {
    if tag_len <= TITLE_BUDGET {
        (TITLE_BUDGET - tag_len) as nat
    } else {
        0
    }
}

/// The title cut to its budget, with `"..."` where something was cut.
pub open spec fn truncated_title(title: Seq<char>, tag_len: nat) -> Seq<char> {
    if title.len() > title_budget(tag_len) {
        title.subrange(0, title_budget(tag_len) as int) + "..."@
    } else {
        title
    }
}

/// The title that a report shows: the truncated title, `" in "`, the tag.
pub open spec fn event_title(title: Seq<char>, location: Option<EventFileLocation>) -> Seq<char> {
    truncated_title(title, location_tag(location).len()) + " in "@ + location_tag(location)
}

/// The normalized signature, substitutions applied in this order.
pub open spec fn normalized(title: Seq<char>) -> Seq<char> {
    let s = lowercase_of(title);
    let s = regex_replaced(HEX_RUN@, s, "<hex>"@);
    let s = regex_replaced(UUID_TOKEN@, s, "<uuid>"@);
    let s = regex_replaced(INTEGER_TOKEN@, s, "<num>"@);
    let s = regex_replaced(EMAIL_TOKEN@, s, "<email>"@);
    let s = regex_replaced(IPV4_TOKEN@, s, "<ip>"@);
    let s = regex_replaced(QUOTED_TEXT@, s, "<str>"@);
    let s = regex_replaced(MIXED_CASE_IDENT@, s, "<id>"@);
    let s = regex_replaced(DIGIT_IDENT@, s, "<id>"@);
    trimmed(regex_replaced(WHITESPACE_RUN@, s, " "@))
}

/// The hash of an environment's name; no environment hashes as `""`.
pub open spec fn environment_hash_of(environment: Option<Seq<char>>) -> u64 {
    match environment {
        Some(name) => default_hash_of(name),
        None => default_hash_of(Seq::empty()),
    }
}

/// The text whose digest is the deduplication key.
pub open spec fn uid_source(project_id: u32, environment_hash: u64, signature: Seq<char>) -> Seq<char> {
    "p"@ + decimal(project_id as nat) + "-"@ + decimal(environment_hash as nat) + "-"@ + signature
}

/// The deduplication key: the digest of the source, in upper-case hex.
pub open spec fn uid_of(project_id: u32, environment_hash: u64, signature: Seq<char>) -> Seq<char> {
    upper_hex(sha256_of(encode_utf8(uid_source(project_id, environment_hash, signature))))
}

/// The location tag of an occurrence.
pub fn location_text(location: &Option<EventFileLocation>) -> (r: String)
    ensures
        r@ == location_tag(*location),
{
    match location {
        Some(l) => {
            let mut r = l.file.clone();
            r.append(":");
            push_decimal(&mut r, l.line as u64);
            r
        },
        None => String::from_str("Unknown"),
    }
}

/// The title that a report shows for an occurrence.
pub fn compose_title(title: &str, location: &Option<EventFileLocation>) -> (r: String)
    ensures
        r@ == event_title(title@, *location),
{
    let tag = location_text(location);
    let tag_len = tag.as_str().unicode_len();
    let budget: usize = if tag_len <= TITLE_BUDGET {
        TITLE_BUDGET - tag_len
    } else {
        0
    };
    let mut r = if title.unicode_len() > budget {
        let mut cut = title.substring_char(0, budget).to_owned();
        cut.append("...");
        cut
    } else {
        title.to_owned()
    };
    r.append(" in ");
    r.append(tag.as_str());
    r
}

/// The normalized signature of a title.
pub fn normalize_title(title: &str) -> (r: String)
    ensures
        r@ == normalized(title@),
{
    let s = lowercase(title);
    let s = replace_matches(HEX_RUN, s.as_str(), "<hex>");
    let s = replace_matches(UUID_TOKEN, s.as_str(), "<uuid>");
    let s = replace_matches(INTEGER_TOKEN, s.as_str(), "<num>");
    let s = replace_matches(EMAIL_TOKEN, s.as_str(), "<email>");
    let s = replace_matches(IPV4_TOKEN, s.as_str(), "<ip>");
    let s = replace_matches(QUOTED_TEXT, s.as_str(), "<str>");
    let s = replace_matches(MIXED_CASE_IDENT, s.as_str(), "<id>");
    let s = replace_matches(DIGIT_IDENT, s.as_str(), "<id>");
    let s = replace_matches(WHITESPACE_RUN, s.as_str(), " ");
    trim(s.as_str())
}

/// The hash of an environment's name, of `""` without one.
pub fn environment_hash(environment: Option<&str>) -> (r: u64)
    ensures
        r == environment_hash_of(
            match environment {
                Some(name) => Some(name@),
                None => None,
            },
        ),
{
    match environment {
        Some(name) => default_hash(name),
        None => {
            proof {
                reveal_strlit("");
            }
            let empty = "";
            assert(empty@ =~= Seq::<char>::empty());
            default_hash(empty)
        },
    }
}

/// The deduplication key of a signature within a project and environment.
pub fn uid_from_signature(project_id: u32, environment_hash: u64, signature: &str) -> (r: String)
    ensures
        r@ == uid_of(project_id, environment_hash, signature@),
{
    let mut source = String::from_str("p");
    push_decimal(&mut source, project_id as u64);
    source.append("-");
    push_decimal(&mut source, environment_hash);
    source.append("-");
    source.append(signature);
    let digest = sha256(source.as_str().as_bytes());
    to_upper_hex(digest.as_slice())
}

} // verus!
