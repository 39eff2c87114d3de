use vstd::prelude::*;

verus! {

/// Whether `regex::Regex::new`, under its default configuration, accepts
/// `pattern`. Compilation refuses a syntactically invalid pattern and one
/// whose compiled form exceeds the default size limit; both outcomes depend
/// on the pattern alone.
pub uninterp spec fn regex_compiles(pattern: Seq<char>) -> bool;

/// Whether the regular expression `pattern` matches anywhere inside
/// `text` (unanchored substring search). Only meaningful when
/// `regex_compiles(pattern)` holds.
pub uninterp spec fn regex_found(pattern: Seq<char>, text: Seq<char>) -> bool;

/// The pattern a compiled `regex::Regex` was built from.
pub uninterp spec fn regex_pattern(re: regex::Regex) -> Seq<char>;

/// The lower-cased form of `s`, as `str::to_lowercase` computes it; it
/// depends on the characters of `s` alone.
pub uninterp spec fn lower_of(s: Seq<char>) -> Seq<char>;

#[verifier::external_type_specification]
#[verifier::external_body]
pub struct ExRegex(regex::Regex);

#[verifier::external_type_specification]
#[verifier::external_body]
pub struct ExRegexError(regex::Error);

/// Relies on `regex::Regex::new`: it returns `Ok` exactly when the pattern
/// compiles under the default configuration, and the compiled matcher is
/// built from that pattern.
#[verifier::external_body]
pub fn regex_new(pattern: &str) -> (r: Result<regex::Regex, regex::Error>)
    ensures
        r is Ok <==> regex_compiles(pattern@),
        r is Ok ==> regex_pattern(r->Ok_0) == pattern@,
{
    regex::Regex::new(pattern)
}

/// Relies on `regex::Regex::is_match`: it returns true if and only if the
/// compiled pattern matches anywhere inside `text`.
#[verifier::external_body]
pub fn regex_is_match(re: &regex::Regex, text: &str) -> (r: bool)
    ensures
        r == regex_found(regex_pattern(*re), text@),
{
    re.is_match(text)
}

/// Relies on `str::to_lowercase`: the result depends on the characters of
/// `s` alone.
#[verifier::external_body]
pub fn lowercase(s: &str) -> (r: String)
    ensures
        r@ == lower_of(s@),
{
    s.to_lowercase()
}

} // verus!
