use crate::text::{same_text, views};
use vstd::prelude::*;
use vstd::string::StrSliceExecFns;

verus! {

/// The output type that asks for a format chosen from what the client accepts.
pub const AUTO_OUTPUT_TYPE: &'static str = "auto";

/// The characters that end a media subtype in an `Accept` header.
pub open spec fn ends_subtype(c: char) -> bool {
    c == ',' || c == ';'
}

/// The marker that begins an image media type.
pub open spec fn image_marker() -> Seq<char> {
    "image/"@
}

/// Whether the marker `image/` stands at position `i` of `s`.
pub open spec fn marker_at(s: Seq<char>, i: int) -> bool {
    0 <= i && i + 6 <= s.len() && s.subrange(i, i + 6) == image_marker()
}

/// The end of the run of characters from `from` on that do not end a subtype.
pub open spec fn run_end(s: Seq<char>, from: int) -> int
    decreases s.len() - from,
{
    if from < 0 || from >= s.len() || ends_subtype(s[from]) {
        from
    } else {
        run_end(s, from + 1)
    }
}

/// The image subtypes named in `s` from position `i` on: each is the longest
/// run without comma and semicolon, and not empty, that follows a marker
/// `image/`; the search goes on behind each one found.
pub open spec fn subtypes_from(s: Seq<char>, i: int) -> Seq<Seq<char>>
    decreases s.len() - i,
    via subtypes_from_decreases
{
    if i < 0 || i >= s.len() {
        Seq::empty()
    } else if marker_at(s, i) && run_end(s, i + 6) > i + 6 {
        seq![s.subrange(i + 6, run_end(s, i + 6))] + subtypes_from(s, run_end(s, i + 6))
    } else {
        subtypes_from(s, i + 1)
    }
}

#[via_fn]
proof fn subtypes_from_decreases(s: Seq<char>, i: int) {
    if 0 <= i && i + 6 <= s.len() {
        lemma_run_end(s, i + 6);
    }
}

/// The image subtypes that an `Accept` header names, in order.
pub open spec fn image_subtypes(accept: Seq<char>) -> Seq<Seq<char>> {
    subtypes_from(accept, 0)
}

/// Whether a client that sent `accept` can show `format`: `png` and `jpeg`
/// every client can, any other format if the header names it.
pub open spec fn displayable(accept: Seq<char>, format: Seq<char>) -> bool {
    format == "png"@ || format == "jpeg"@ || image_subtypes(accept).contains(format)
}

/// The first of the `preferred` formats from position `from` on that the
/// client can show.
pub open spec fn first_displayable(preferred: Seq<Seq<char>>, accept: Seq<char>, from: int) -> Option<
    Seq<char>,
>
    decreases preferred.len() - from,
{
    if from < 0 || from >= preferred.len() {
        None
    } else if displayable(accept, preferred[from]) {
        Some(preferred[from])
    } else {
        first_displayable(preferred, accept, from + 1)
    }
}

/// The format to encode to, and whether the response is private to the
/// client. An explicit output type stands, and no output type means the
/// image's own format; both are public. `auto` means the first preferred
/// format that the client can show, or the image's own format if there is
/// none, and makes the response private.
pub open spec fn resolved_output(
    requested: Option<Seq<char>>,
    accept: Seq<char>,
    preferred: Seq<Seq<char>>,
    current: Seq<char>,
) -> (Seq<char>, bool) {
    match requested {
        None => (current, false),
        Some(name) => if name == AUTO_OUTPUT_TYPE@ {
            match first_displayable(preferred, accept, 0) {
                Some(format) => (format, true),
                None => (current, true),
            }
        } else {
            (name, false)
        },
    }
}

/// `run_end` stays within the string and stops at the first character that
/// ends a subtype.
pub proof fn lemma_run_end(s: Seq<char>, from: int)
    requires
        0 <= from <= s.len(),
    ensures
        from <= run_end(s, from) <= s.len(),
        run_end(s, from) < s.len() ==> ends_subtype(s[run_end(s, from)]),
        forall|k: int| from <= k < run_end(s, from) ==> !ends_subtype(s[k]),
    decreases s.len() - from,
{
    if from < s.len() && !ends_subtype(s[from]) {
        lemma_run_end(s, from + 1);
    }
}

/// Whether the marker `image/` stands at position `i` of `s`.
fn has_marker_at(s: &str, n: usize, i: usize) -> (r: bool)
    requires
        n == s@.len(),
        i <= n,
    ensures
        r == marker_at(s@, i as int),
{
    proof {
        reveal_strlit("image/");
    }
    if n - i < 6 {
        return false;
    }
    let r = s.get_char(i) == 'i' && s.get_char(i + 1) == 'm' && s.get_char(i + 2) == 'a' && s.get_char(
        i + 3,
    ) == 'g' && s.get_char(i + 4) == 'e' && s.get_char(i + 5) == '/';
    proof {
        let part = s@.subrange(i as int, i + 6);
        if r {
            assert(part =~= image_marker());
        } else {
            assert(part[0] == s@[i as int]);
            assert(part[1] == s@[i + 1]);
            assert(part[2] == s@[i + 2]);
            assert(part[3] == s@[i + 3]);
            assert(part[4] == s@[i + 4]);
            assert(part[5] == s@[i + 5]);
        }
    }
    r
}

/// The image subtypes that an `Accept` header names, in order.
pub fn accepted_subtypes(accept: &str) -> (r: Vec<String>)
    ensures
        views(r@) == image_subtypes(accept@),
{
    let n = accept.unicode_len();
    let mut found: Vec<String> = Vec::new();
    let mut i: usize = 0;
    assert(views(found@) =~= Seq::<Seq<char>>::empty());
    while i < n
        invariant
            n == accept@.len(),
            i <= n,
            views(found@) + subtypes_from(accept@, i as int) == image_subtypes(accept@),
        decreases n - i,
    {
        if has_marker_at(accept, n, i) {
            let start = i + 6;
            let mut end = start;
            while end < n && accept.get_char(end) != ',' && accept.get_char(end) != ';'
                invariant
                    n == accept@.len(),
                    start <= end <= n,
                    run_end(accept@, start as int) == run_end(accept@, end as int),
                decreases n - end,
            {
                end = end + 1;
            }
            if end > start {
                let ghost before = views(found@);
                found.push(accept.substring_char(start, end).to_owned());
                proof {
                    assert(views(found@) =~= before + seq![accept@.subrange(start as int, end as int)]);
                    assert(before + subtypes_from(accept@, i as int) =~= views(found@) + subtypes_from(
                        accept@,
                        end as int,
                    ));
                }
                i = end;
            } else {
                i = i + 1;
            }
        } else {
            i = i + 1;
        }
    }
    assert(views(found@) + Seq::<Seq<char>>::empty() =~= views(found@));
    found
}

/// Whether `format` is one of `names`.
fn is_named(names: &Vec<String>, format: &str) -> (r: bool)
    ensures
        r == views(names@).contains(format@),
{
    let mut i: usize = 0;
    while i < names.len()
        invariant
            i <= names.len(),
            forall|k: int| 0 <= k < i ==> views(names@)[k] != format@,
        decreases names.len() - i,
    {
        if same_text(names[i].as_str(), format) {
            assert(views(names@)[i as int] == format@);
            return true;
        }
        i = i + 1;
    }
    false
}

/// The format to encode to, and whether the response is private to the client.
pub fn resolve_output_type(
    requested: &Option<String>,
    accept: &str,
    preferred: &Vec<String>,
    current: &str,
) -> (r: (String, bool))
    ensures
        (r.0@, r.1) == resolved_output(
            match *requested {
                Some(name) => Some(name@),
                None => None,
            },
            accept@,
            views(preferred@),
            current@,
        ),
{
    match requested {
        None => (current.to_owned(), false),
        Some(name) => {
            if !same_text(name.as_str(), AUTO_OUTPUT_TYPE) {
                return (name.clone(), false);
            }
            let named = accepted_subtypes(accept);
            let mut i: usize = 0;
            while i < preferred.len()
                invariant
                    i <= preferred.len(),
                    *requested == Some(*name),
                    name@ == AUTO_OUTPUT_TYPE@,
                    views(named@) == image_subtypes(accept@),
                    first_displayable(views(preferred@), accept@, 0) == first_displayable(
                        views(preferred@),
                        accept@,
                        i as int,
                    ),
                decreases preferred.len() - i,
            {
                let format = preferred[i].as_str();
                assert(views(preferred@)[i as int] == format@);
                if same_text(format, "png") || same_text(format, "jpeg") || is_named(&named, format) {
                    assert(displayable(accept@, views(preferred@)[i as int]));
                    assert(first_displayable(views(preferred@), accept@, i as int) == Some(
                        views(preferred@)[i as int],
                    ));
                    return (preferred[i].clone(), true);
                }
                i = i + 1;
            }
            (current.to_owned(), true)
        },
    }
}

/// With `auto`, the chosen format is one the client can show and one of the
/// preferred ones, or it is the image's own format; the response is private.
/// Without `auto` the response is public.
pub proof fn lemma_resolved_output(
    requested: Option<Seq<char>>,
    accept: Seq<char>,
    preferred: Seq<Seq<char>>,
    current: Seq<char>,
)
    ensures
        ({
            let resolved = resolved_output(requested, accept, preferred, current);
            &&& resolved.1 == (requested == Some(AUTO_OUTPUT_TYPE@))
            &&& resolved.1 ==> resolved.0 == current || (preferred.contains(resolved.0)
                && displayable(accept, resolved.0))
        }),
{
    lemma_first_displayable(preferred, accept, 0);
}

/// What `first_displayable` finds is preferred and displayable, and nothing
/// preferred before it is displayable.
pub proof fn lemma_first_displayable(preferred: Seq<Seq<char>>, accept: Seq<char>, from: int)
    requires
        0 <= from,
    ensures
        match first_displayable(preferred, accept, from) {
            Some(format) => preferred.contains(format) && displayable(accept, format),
            None => forall|k: int| from <= k < preferred.len() ==> !displayable(accept, preferred[k]),
        },
    decreases preferred.len() - from,
{
    if from < preferred.len() && !displayable(accept, preferred[from]) {
        lemma_first_displayable(preferred, accept, from + 1);
    }
}

} // verus!
