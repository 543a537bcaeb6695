use vstd::prelude::*;

verus! {

/// The bytes that `text` encodes in base64, standard alphabet, without
/// padding; `None` where it is no such encoding.
pub uninterp spec fn base64_decoded(text: Seq<char>) -> Option<Seq<u8>>;

/// `Engine::decode` of `base64::engine::general_purpose::STANDARD_NO_PAD`:
/// whether the text decodes, and to which bytes, depends on the text alone.
#[verifier::external_body]
pub(crate) fn decode_base64(text: &str) -> (r: Result<Vec<u8>, base64::DecodeError>)
    ensures
        match r {
            Ok(bytes) => base64_decoded(text@) == Some(bytes@),
            Err(_) => base64_decoded(text@) is None,
        },
{
    base64::Engine::decode(&base64::engine::general_purpose::STANDARD_NO_PAD, text)
}

/// The string that `text` encodes with percent escapes; `None` where the
/// escaped bytes are not UTF-8.
pub uninterp spec fn percent_decoded(text: Seq<char>) -> Option<Seq<char>>;

/// `urlencoding::decode`: whether the text decodes, and to which string,
/// depends on the text alone.
#[verifier::external_body]
pub(crate) fn percent_decode(text: &str) -> (r: Result<String, std::string::FromUtf8Error>)
    ensures
        match r {
            Ok(decoded) => percent_decoded(text@) == Some(decoded@),
            Err(_) => percent_decoded(text@) is None,
        },
{
    urlencoding::decode(text).map(|decoded| decoded.into_owned())
}

/// `text` with every occurrence of `from` replaced by `to`, as `str::replace` does it.
pub uninterp spec fn replaced(text: Seq<char>, from: Seq<char>, to: Seq<char>) -> Seq<char>;

/// `str::replace`: the new string depends on the three strings alone.
#[verifier::external_body]
pub(crate) fn replace_all(text: &str, from: &str, to: &str) -> (r: String)
    ensures
        r@ == replaced(text@, from@, to@),
{
    text.replace(from, to)
}

/// The groups that the first match of the regular expression `pattern` in
/// `text` captures, the whole match first and a group that took no part as
/// the empty string; `None` where nothing matches or `pattern` is no
/// regular expression.
pub uninterp spec fn captured(pattern: Seq<char>, text: Seq<char>) -> Option<Seq<Seq<char>>>;

/// `regex::Regex::new` and `Regex::captures`: whether the expression
/// matches, and what its groups capture, depends on the expression and the
/// text alone.
#[verifier::external_body]
pub(crate) fn capture_groups(pattern: &str, text: &str) -> (r: Option<Vec<String>>)
    ensures
        match r {
            Some(groups) => captured(pattern@, text@) == Some(crate::text::views(groups@)),
            None => captured(pattern@, text@) is None,
        },
{
    let expression = regex::Regex::new(pattern).ok()?;
    let groups = expression.captures(text)?;
    Some(groups.iter().map(|group| group.map_or(String::new(), |m| m.as_str().to_string())).collect())
}

} // verus!
