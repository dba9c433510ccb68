use vstd::prelude::*;
use vstd::string::StringSliceAdditionalSpecFns;
use vstd::utf8::{decode_utf8, encode_utf8, valid_utf8};

verus! {

/// The expansion of `template` against the groups of the leftmost match of
/// the regex `pattern` in `hay`; `None` where the pattern does not compile
/// or does not match.
pub uninterp spec fn regex_expansion(pattern: Seq<char>, hay: Seq<char>, template: Seq<char>) -> Option<
    Seq<char>,
>;

/// Relies on std's `str::from_utf8`: `Ok` exactly when the bytes are valid
/// UTF-8, and then the text that they encode.
#[verifier::external_body]
fn utf8_text(b: &[u8]) -> (r: Option<&str>)
    ensures
        r is Some <==> valid_utf8(b@),
        r is Some ==> r->0@ == decode_utf8(b@),
{
    std::str::from_utf8(b).ok()
}

/// Relies on the regex crate's `Regex::new`, `Regex::captures` and
/// `Captures::expand`: the result depends on the three texts alone, and
/// `expand` copies a template without `$` as it stands.
#[verifier::external_body]
fn expand_first_match(pattern: &str, hay: &str, template: &str) -> (r: Option<String>)
    ensures
        r is Some <==> regex_expansion(pattern@, hay@, template@) is Some,
        r is Some ==> r->0@ == regex_expansion(pattern@, hay@, template@)->0,
        r is Some && !template@.contains('$') ==> r->0@ == template@,
{
    let re = regex::Regex::new(pattern).ok()?;
    let caps = re.captures(hay)?;
    let mut dst = String::new();
    caps.expand(template, &mut dst);
    Some(dst)
}

pub open spec fn is_boundary_token(s: Seq<u8>, at: int) -> bool {
    0 <= at && at + 2 <= s.len() && s[at] == 92u8 && s[at + 1] == 98u8
}

/// `s` without any leading `\b` tokens.
pub open spec fn strip_front(s: Seq<u8>) -> Seq<u8>
    decreases s.len(),
{
    if is_boundary_token(s, 0) {
        strip_front(s.subrange(2, s.len() as int))
    } else {
        s
    }
}

/// `s` without any trailing `\b` tokens.
pub open spec fn strip_back(s: Seq<u8>) -> Seq<u8>
    decreases s.len(),
{
    if is_boundary_token(s, s.len() - 2) {
        strip_back(s.subrange(0, s.len() - 2))
    } else {
        s
    }
}

/// A pattern with its leading and trailing word-boundary assertions taken
/// off: they depend on bytes around a match that an isolated slice lacks.
pub open spec fn strip_boundaries(s: Seq<u8>) -> Seq<u8> {
    strip_back(strip_front(s))
}

/// Removes every leading and every trailing `\b` token of a pattern.
pub fn strip_boundary_tokens(p: &[u8]) -> (r: Vec<u8>)
    ensures
        r@ == strip_boundaries(p@),
{
    let mut a: usize = 0;
    assert(p@.subrange(0, p@.len() as int) =~= p@);
    while p.len() - a >= 2 && p[a] == 92u8 && p[a + 1] == 98u8
        invariant
            a <= p@.len(),
            strip_front(p@.subrange(a as int, p@.len() as int)) == strip_front(p@),
        decreases p@.len() - a,
    {
        assert(p@.subrange(a as int, p@.len() as int).subrange(2, p@.len() - a) =~= p@.subrange(
            a + 2,
            p@.len() as int,
        ));
        a = a + 2;
    }
    let ghost front = p@.subrange(a as int, p@.len() as int);
    assert(strip_front(front) == front);
    let mut b: usize = p.len();
    while b - a >= 2 && p[b - 2] == 92u8 && p[b - 1] == 98u8
        invariant
            a <= b <= p@.len(),
            strip_back(p@.subrange(a as int, b as int)) == strip_back(front),
        decreases b,
    {
        assert(p@.subrange(a as int, b as int).subrange(0, b - a - 2) =~= p@.subrange(
            a as int,
            b - 2,
        ));
        b = b - 2;
    }
    let mut r: Vec<u8> = Vec::new();
    let mut i: usize = a;
    while i < b
        invariant
            a <= i <= b <= p@.len(),
            r@ == p@.subrange(a as int, i as int),
        decreases b - i,
    {
        r.push(p[i]);
        assert(p@.subrange(a as int, i + 1) =~= p@.subrange(a as int, i as int).push(p@[i as int]));
        i = i + 1;
    }
    r
}

pub open spec fn opt_bytes(r: Option<Vec<u8>>) -> Option<Seq<u8>> {
    match r {
        Some(v) => Some(v@),
        None => None,
    }
}

/// The pattern-mode replacement: `None` where a text is not UTF-8 or the
/// stripped keyword does not compile or does not match; otherwise the
/// UTF-8 bytes of the template expanded against the keyword's match.
pub open spec fn pattern_result(keyword: Seq<u8>, template: Seq<u8>, matched: Seq<u8>) -> Option<
    Seq<u8>,
> {
    let kw = strip_boundaries(keyword);
    if !valid_utf8(matched) || !valid_utf8(template) || !valid_utf8(kw) {
        None
    } else {
        match regex_expansion(decode_utf8(kw), decode_utf8(matched), decode_utf8(template)) {
            Some(e) => Some(encode_utf8(e)),
            None => None,
        }
    }
}

/// Copies the UTF-8 bytes of a text.
fn text_bytes(s: &str) -> (r: Vec<u8>)
    ensures
        r@ == s.spec_bytes(),
{
    let b = s.as_bytes();
    let mut r: Vec<u8> = Vec::new();
    let mut i: usize = 0;
    while i < b.len()
        invariant
            i <= b@.len(),
            r@ == b@.subrange(0, i as int),
        decreases b@.len() - i,
    {
        r.push(b[i]);
        assert(b@.subrange(0, i + 1) =~= b@.subrange(0, i as int).push(b@[i as int]));
        i = i + 1;
    }
    assert(b@.subrange(0, b@.len() as int) =~= b@);
    r
}

/// The replacement for a matched slice in pattern mode: the keyword, with
/// its boundary tokens stripped, is applied to the slice again and the
/// template's group references are expanded against what it captured.
/// `None` when a text is not UTF-8, the keyword does not compile, or the
/// slice does not match it.
pub fn pattern_replacement(keyword: &[u8], template: &[u8], matched: &[u8]) -> (r: Option<Vec<u8>>)
    ensures
        opt_bytes(r) == pattern_result(keyword@, template@, matched@),
        r is Some && !decode_utf8(template@).contains('$') ==> r->0@ == template@,
{
    let org = match utf8_text(matched) {
        Some(s) => s,
        None => return None,
    };
    let kw_bytes = strip_boundary_tokens(keyword);
    let kw = match utf8_text(kw_bytes.as_slice()) {
        Some(s) => s,
        None => return None,
    };
    let tpl = match utf8_text(template) {
        Some(s) => s,
        None => return None,
    };
    match expand_first_match(kw, org, tpl) {
        Some(dst) => {
            proof {
                vstd::utf8::decode_utf8_encode_utf8(template@);
            }
            Some(text_bytes(dst.as_str()))
        },
        None => None,
    }
}

} // verus!
