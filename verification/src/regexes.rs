use vstd::prelude::*;
use vstd::string::StringSliceAdditionalSpecFns;

verus! {

/// The regex `pattern` compiles and matches somewhere in `text`.
pub uninterp spec fn regex_found(pattern: Seq<char>, text: Seq<char>) -> bool;

/// The number of successive non-overlapping matches of `pattern` in `text`.
pub uninterp spec fn regex_count(pattern: Seq<char>, text: Seq<char>) -> nat;

/// The texts of the successive non-overlapping matches of `pattern` in `text`.
pub uninterp spec fn regex_all(pattern: Seq<char>, text: Seq<char>) -> Seq<Seq<char>>;

/// `text` with the first match of `pattern` replaced by `rep`.
pub uninterp spec fn regex_replaced(pattern: Seq<char>, text: Seq<char>, rep: Seq<char>) -> Seq<char>;

/// The texts of the first two capture groups of the first match of `pattern`
/// in `text`, when there is a match.
pub uninterp spec fn regex_groups2(pattern: Seq<char>, text: Seq<char>) -> Option<(Seq<char>, Seq<char>)>;

/// The text of capture group 1 and the byte offset where the whole match
/// ends, for the first match of `pattern` in `text`.
pub uninterp spec fn regex_group1_end(pattern: Seq<char>, text: Seq<char>) -> Option<(Seq<char>, nat)>;

/// For each successive match of `pattern` in `text`, the texts of capture
/// groups 1 and 2.
pub uninterp spec fn regex_all_groups2(pattern: Seq<char>, text: Seq<char>) -> Seq<(Seq<char>, Seq<char>)>;

/// `regex::Regex::is_match`: "true if and only if there is a match for the
/// regex anywhere in the haystack". A pattern that does not compile matches
/// nothing here. What the regex matches is named, not spelled out.
#[verifier::external_body]
pub fn regex_is_match(pattern: &str, text: &str) -> (r: bool)
    ensures
        r == regex_found(pattern@, text@),
{
    match regex::Regex::new(pattern) {
        Ok(re) => re.is_match(text),
        Err(_) => false,
    }
}

/// The number of items `regex::Regex::find_iter` yields ("successive
/// non-overlapping matches"); there is at least one exactly when the regex
/// matches somewhere.
#[verifier::external_body]
pub fn regex_match_count(pattern: &str, text: &str) -> (r: usize)
    ensures
        r == regex_count(pattern@, text@),
        (r > 0) == regex_found(pattern@, text@),
{
    match regex::Regex::new(pattern) {
        Ok(re) => re.find_iter(text).count(),
        Err(_) => 0,
    }
}

/// The whole-match texts of `regex::Regex::captures_iter`, in order; the
/// list is empty exactly when the regex matches nowhere.
#[verifier::external_body]
pub fn regex_all_matches(pattern: &str, text: &str) -> (r: Vec<String>)
    ensures
        r.deep_view() == regex_all(pattern@, text@),
        (r@.len() > 0) == regex_found(pattern@, text@),
{
    let mut all = Vec::new();
    if let Ok(re) = regex::Regex::new(pattern) {
        for caps in re.captures_iter(text) {
            all.push(caps[0].to_string());
        }
    }
    all
}

/// `regex::Regex::replace` of the first match by `rep`; without a match the
/// text comes back unchanged.
#[verifier::external_body]
pub fn regex_replace_first(pattern: &str, text: &str, rep: &str) -> (r: String)
    ensures
        r@ == regex_replaced(pattern@, text@, rep@),
        !regex_found(pattern@, text@) ==> r@ == text@,
{
    match regex::Regex::new(pattern) {
        Ok(re) => re.replace(text, rep).to_string(),
        Err(_) => text.to_string(),
    }
}

/// `regex::Regex::captures`: the texts of groups 1 and 2 of the first match
/// (an unmatched group reads as empty); `None` exactly when there is no match.
#[verifier::external_body]
pub fn regex_captures2(pattern: &str, text: &str) -> (r: Option<(String, String)>)
    ensures
        match r {
            Some((a, b)) => regex_groups2(pattern@, text@) == Some((a@, b@)),
            None => regex_groups2(pattern@, text@) is None,
        },
        r is Some == regex_found(pattern@, text@),
{
    let re = match regex::Regex::new(pattern) {
        Ok(re) => re,
        Err(_) => return None,
    };
    let caps = re.captures(text)?;
    let first = match caps.get(1) {
        Some(m) => m.as_str().to_string(),
        None => String::new(),
    };
    let second = match caps.get(2) {
        Some(m) => m.as_str().to_string(),
        None => String::new(),
    };
    Some((first, second))
}

/// `regex::Regex::captures` on the first match: the text of group 1 (empty
/// when the group did not take part) and `Match::end` of the whole match,
/// which the crate documents to lie on a UTF-8 boundary of the text; `None`
/// exactly when there is no match. The values are named, not spelled out.
#[verifier::external_body]
pub fn regex_group1_and_end(pattern: &str, text: &str) -> (r: Option<(String, usize)>)
    ensures
        match r {
            Some((g, e)) => regex_group1_end(pattern@, text@) == Some((g@, e as nat)) && e
                <= text.spec_bytes().len() && vstd::utf8::is_char_boundary(text.spec_bytes(), e as int),
            None => regex_group1_end(pattern@, text@) is None,
        },
        r is Some == regex_found(pattern@, text@),
{
    let re = match regex::Regex::new(pattern) {
        Ok(re) => re,
        Err(_) => return None,
    };
    let caps = re.captures(text)?;
    let group = match caps.get(1) {
        Some(m) => m.as_str().to_string(),
        None => String::new(),
    };
    Some((group, caps.get(0).map_or(0, |m| m.end())))
}

/// `regex::Regex::captures_iter`: for each successive match, the texts of
/// groups 1 and 2 (an unmatched group reads as empty); nothing when the
/// pattern does not compile. The list is named, not spelled out.
#[verifier::external_body]
pub fn regex_captures_all2(pattern: &str, text: &str) -> (r: Vec<(String, String)>)
    ensures
        r@.map_values(|p: (String, String)| (p.0@, p.1@)) == regex_all_groups2(pattern@, text@),
{
    let mut all = Vec::new();
    if let Ok(re) = regex::Regex::new(pattern) {
        for caps in re.captures_iter(text) {
            let first = caps.get(1).map_or(String::new(), |m| m.as_str().to_string());
            let second = caps.get(2).map_or(String::new(), |m| m.as_str().to_string());
            all.push((first, second));
        }
    }
    all
}

/// The characters that have a meaning in a regex.
pub open spec fn is_meta_character(c: char) -> bool {
    c == '\\' || c == '.' || c == '+' || c == '*' || c == '?' || c == '(' || c == ')' || c == '|' || c == '['
        || c == ']' || c == '{' || c == '}' || c == '^' || c == '$' || c == '#' || c == '&' || c == '-' || c
        == '~'
}

/// `text` with a backslash put before each meta character.
pub open spec fn escaped(text: Seq<char>) -> Seq<char> {
    crate::strings::flat_map_chars(
        text,
        |c: char|
            if is_meta_character(c) {
                seq!['\\', c]
            } else {
                seq![c]
            },
    )
}

/// `regex::escape`: each character of the text in turn, with a backslash
/// before each of the meta characters `\ . + * ? ( ) | [ ] { } ^ $ # & - ~`
/// (the crate's `is_meta_character`), so that the result matches the text
/// literally.
#[verifier::external_body]
pub fn regex_escape(text: &str) -> (r: String)
    ensures
        r@ == escaped(text@),
{
    regex::escape(text)
}

} // verus!
