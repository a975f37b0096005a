use vstd::prelude::*;

verus! {

/// The pieces of `s` between its '/' characters, in order, empty pieces
/// included (`"/a//b"` gives `"", "a", "", "b"`).
pub open spec fn pieces_of(s: Seq<char>) -> Seq<Seq<char>>
    decreases s.len(),
{
    if s.len() == 0 {
        seq![Seq::empty()]
    } else {
        let rest = pieces_of(s.drop_first());
        if s[0] == '/' {
            seq![Seq::empty()] + rest
        } else {
            rest.update(0, seq![s[0]] + rest[0])
        }
    }
}

/// The segments of a path: its non-empty pieces.
pub open spec fn path_segments(s: Seq<char>) -> Seq<Seq<char>> {
    pieces_of(s).filter(|p: Seq<char>| p.len() > 0)
}

/// What a path specification parses to.
pub open spec fn parse_path_spec(s: Seq<char>) -> Result<Seq<Seq<char>>, ParsePathError> {
    if !(s.len() > 0 && s[0] == '/') {
        Err(ParsePathError::NoLeadingSlash)
    } else if path_segments(s).len() == 0 {
        Err(ParsePathError::PathEmpty)
    } else {
        Ok(path_segments(s))
    }
}

/// Whether `input` starts with the segments of `prefix`, in order.
pub open spec fn starts_with(input: Seq<Seq<char>>, prefix: Seq<Seq<char>>) -> bool {
    prefix.len() <= input.len() && input.subrange(0, prefix.len() as int) == prefix
}

/// Why a path specification was refused.
#[derive(Clone, Copy, Debug, PartialEq, Eq, Structural)]
pub enum ParsePathError {
    NoLeadingSlash,
    PathEmpty,
}

impl ParsePathError {
    pub fn description(&self) -> (r: &'static str)
        ensures
            r@ == parse_path_error_description(*self),
    {
        match self {
            ParsePathError::NoLeadingSlash => "Path must start with /",
            ParsePathError::PathEmpty => "Path cannot be empty",
        }
    }
}

pub open spec fn parse_path_error_description(e: ParsePathError) -> Seq<char> {
    match e {
        ParsePathError::NoLeadingSlash => "Path must start with /"@,
        ParsePathError::PathEmpty => "Path cannot be empty"@,
    }
}

/// Relies on `str::split` with a `char` pattern: the pieces between the
/// separators, in order, empty ones included.
#[verifier::external_body]
fn split_slashes(s: &str) -> (r: Vec<String>)
    ensures
        crate::request::strings_view(r@) == pieces_of(s@),
{
    s.split('/').map(|p| p.to_string()).collect()
}

proof fn lemma_pieces_nonempty(s: Seq<char>)
    ensures
        pieces_of(s).len() >= 1,
        pieces_of(s).len() >= 2 && pieces_of(s)[0].len() == 0 <==> s.len() > 0 && s[0] == '/',
    decreases s.len(),
{
    if s.len() > 0 {
        lemma_pieces_nonempty(s.drop_first());
    }
}

/// Parses a path specification such as `/api/v2` into its segments. It must
/// start with '/'; empty segments are dropped; at least one must be left.
pub fn parse_path(path: &str) -> (r: Result<Vec<String>, ParsePathError>)
    ensures
        match r {
            Ok(v) => parse_path_spec(path@) == Ok::<Seq<Seq<char>>, ParsePathError>(crate::request::strings_view(v@)),
            Err(e) => parse_path_spec(path@) == Err::<Seq<Seq<char>>, ParsePathError>(e),
        },
{
    let pieces = split_slashes(path);
    proof {
        lemma_pieces_nonempty(path@);
    }
    let ghost pv = crate::request::strings_view(pieces@);
    if !(pieces.len() >= 2 && pieces[0].as_str().is_empty()) {
        assert(pv[0] == pieces@[0]@);
        return Err(ParsePathError::NoLeadingSlash);
    }
    assert(pv[0] == pieces@[0]@);
    let mut segments: Vec<String> = Vec::new();
    let mut i: usize = 0;
    while i < pieces.len()
        invariant
            0 <= i <= pieces.len(),
            pv == crate::request::strings_view(pieces@),
            crate::request::strings_view(segments@) == pv.subrange(0, i as int).filter(
                |p: Seq<char>| p.len() > 0,
            ),
        decreases pieces.len() - i,
    {
        let ghost before = pv.subrange(0, i as int);
        assert(pv.subrange(0, i + 1).drop_last() == before);
        assert(pv.subrange(0, i + 1).last() == pieces@[i as int]@);
        reveal(Seq::filter);
        if !pieces[i].as_str().is_empty() {
            segments.push(pieces[i].clone());
            assert(crate::request::strings_view(segments@) =~= crate::request::strings_view(
                segments@.drop_last(),
            ).push(pieces@[i as int]@));
        }
        i = i + 1;
    }
    assert(pv.subrange(0, pieces.len() as int) == pv);
    if segments.len() == 0 {
        return Err(ParsePathError::PathEmpty);
    }
    Ok(segments)
}

/// Whether the segments of `input` start with those of `prefix`: a prefix
/// longer than the input never matches; one of equal length matches when
/// every segment is equal.
pub fn slice_starts_with(input: &[String], prefix: &[String]) -> (r: bool)
    ensures
        r == starts_with(crate::request::strings_view(input@), crate::request::strings_view(prefix@)),
{
    let ghost iv = crate::request::strings_view(input@);
    let ghost pv = crate::request::strings_view(prefix@);
    if prefix.len() > input.len() {
        return false;
    }
    let mut i: usize = 0;
    while i < prefix.len()
        invariant
            prefix.len() <= input.len(),
            0 <= i <= prefix.len(),
            iv == crate::request::strings_view(input@),
            pv == crate::request::strings_view(prefix@),
            forall|j: int| 0 <= j < i ==> iv[j] == pv[j],
        decreases prefix.len() - i,
    {
        if input[i] != prefix[i] {
            assert(iv.subrange(0, pv.len() as int)[i as int] != pv[i as int]);
            return false;
        }
        i = i + 1;
    }
    assert(iv.subrange(0, pv.len() as int) =~= pv);
    true
}

} // verus!
