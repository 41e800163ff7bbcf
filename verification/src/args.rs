//! The target-specification parser. The annotation's argument text names
//! either a concrete type, or the bound keyword `trait` followed by a
//! non-empty `+`-separated list of capability constraints; an angle-bracket
//! generic-parameter list may come first and is attached to either form.

use vstd::prelude::*;

use crate::text::{
    bracket_delta, depth, first_at, first_depth_return, is_ident_char, is_ident_range,
    region_balanced, spec_rskip_ws, spec_skip_ws,
};
use crate::text::{
    check_region_balanced, exec_is_ident_char, find_at, find_depth_return, is_ident,
    lemma_depth_after_skip, lemma_first_at_found, lemma_first_at_range, rskip_ws, skip_ws,
};

verus! {

/// What went wrong while parsing a target specification.
#[derive(Clone, Copy, Debug, PartialEq, Eq, Structural)]
pub enum ParseErrorKind {
    MalformedGenerics,
    MalformedTypeExpr,
    MalformedConstraintList,
    TrailingTokens,
}

/// A parse failure, carrying the character offset it was noticed at.
#[derive(Clone, Copy, Debug, PartialEq, Eq, Structural)]
pub struct ParseError {
    pub kind: ParseErrorKind,
    pub at: usize,
}

/// Mathematical image of one explicit generic parameter: its name and the
/// raw text of its bound set (empty when it has none).
pub ghost struct GenericParamView {
    pub name: Seq<char>,
    pub bounds: Seq<char>,
}

/// Mathematical image of a target kind.
pub ghost enum ArgKindView {
    Type { ty: Seq<char> },
    TraitBound { constraints: Seq<Seq<char>> },
}

/// Mathematical image of a parsed target specification.
pub ghost struct ArgsView {
    pub kind: ArgKindView,
    pub generics: Option<Seq<GenericParamView>>,
}

/// One explicit generic parameter, e.g. `K: Hash + Eq` (name `K`, bounds
/// `Hash + Eq`) or `V` (empty bounds).
#[derive(Debug)]
pub struct GenericParam {
    pub name: String,
    pub bounds: String,
}

impl View for GenericParam {
    type V = GenericParamView;

    open spec fn view(&self) -> GenericParamView {
        GenericParamView { name: self.name@, bounds: self.bounds@ }
    }
}

/// The two target kinds: a single concrete type, or every type satisfying a
/// conjunction of capability constraints.
#[derive(Debug)]
pub enum ArgKind {
    Type(String),
    TraitBound(Vec<String>),
}

pub open spec fn strings_view(v: Seq<String>) -> Seq<Seq<char>> {
    v.map_values(|s: String| s@)
}

pub open spec fn params_view(v: Seq<GenericParam>) -> Seq<GenericParamView> {
    v.map_values(|p: GenericParam| p@)
}

pub proof fn lemma_strings_view_push(v: Seq<String>, x: String)
    ensures
        strings_view(v.push(x)) == strings_view(v).push(x@),
{
    assert(strings_view(v.push(x)) =~= strings_view(v).push(x@));
}

pub proof fn lemma_params_view_push(v: Seq<GenericParam>, x: GenericParam)
    ensures
        params_view(v.push(x)) == params_view(v).push(x@),
{
    assert(params_view(v.push(x)) =~= params_view(v).push(x@));
}

impl View for ArgKind {
    type V = ArgKindView;

    open spec fn view(&self) -> ArgKindView {
        match self {
            ArgKind::Type(ty) => ArgKindView::Type { ty: ty@ },
            ArgKind::TraitBound(bs) => ArgKindView::TraitBound { constraints: strings_view(bs@) },
        }
    }
}

/// A parsed target specification: the target kind and the optional explicit
/// generic-parameter list that preceded it.
#[derive(Debug)]
pub struct Args {
    pub kind: ArgKind,
    pub generics: Option<Vec<GenericParam>>,
}

impl View for Args {
    type V = ArgsView;

    open spec fn view(&self) -> ArgsView {
        ArgsView {
            kind: self.kind@,
            generics: match self.generics {
                Option::None => Option::<Seq<GenericParamView>>::None,
                Option::Some(ps) => Option::Some(params_view(ps@)),
            },
        }
    }
}

/// The bound keyword `trait` stands at `i`, not merely as a prefix of a
/// longer identifier.
pub open spec fn starts_trait_kw(s: Seq<char>, i: int) -> bool {
    &&& 0 <= i
    &&& i + 5 <= s.len()
    &&& s[i] == 't'
    &&& s[i + 1] == 'r'
    &&& s[i + 2] == 'a'
    &&& s[i + 3] == 'i'
    &&& s[i + 4] == 't'
    &&& (i + 5 == s.len() || !is_ident_char(s[i + 5]))
}

/// The `+`-separated constraint list that runs from `i` to the end of `s`.
/// Each constraint is trimmed of surrounding whitespace; a single trailing
/// `+` is allowed; an empty constraint anywhere else is malformed.
pub open spec fn spec_parse_bounds(s: Seq<char>, i: int) -> Result<Seq<Seq<char>>, ParseError>
    decreases s.len() - i,
    via spec_parse_bounds_dec
{
    let j = first_at(s, '+', 0, i, s.len() as int);
    let a = spec_skip_ws(s, i, j);
    let b = spec_rskip_ws(s, a, j);
    if a >= b {
        if j >= s.len() {
            Result::Ok(Seq::<Seq<char>>::empty())
        } else {
            Result::Err(ParseError { kind: ParseErrorKind::MalformedConstraintList, at: i as usize })
        }
    } else {
        if j >= s.len() {
            Result::Ok(seq![s.subrange(a, b)])
        } else {
            match spec_parse_bounds(s, j + 1) {
                Result::Ok(rest) => Result::Ok(seq![s.subrange(a, b)] + rest),
                Result::Err(e) => Result::Err(e),
            }
        }
    }
}

#[via_fn]
proof fn spec_parse_bounds_dec(s: Seq<char>, i: int) {
    if i <= s.len() {
        lemma_first_at_range(s, '+', 0, i, s.len() as int);
    }
}

/// One explicit generic parameter out of `s[a..b]` (already trimmed and
/// non-empty): an identifier, optionally followed by `:` and a non-empty
/// bound set.
pub open spec fn spec_parse_param(s: Seq<char>, a: int, b: int) -> Result<
    GenericParamView,
    ParseError,
> {
    let c = first_at(s, ':', 1, a, b);
    if c >= b {
        if is_ident_range(s, a, b) {
            Result::Ok(GenericParamView { name: s.subrange(a, b), bounds: Seq::<char>::empty() })
        } else {
            Result::Err(ParseError { kind: ParseErrorKind::MalformedGenerics, at: a as usize })
        }
    } else {
        let ne = spec_rskip_ws(s, a, c);
        let bs = spec_skip_ws(s, c + 1, b);
        if !is_ident_range(s, a, ne) {
            Result::Err(ParseError { kind: ParseErrorKind::MalformedGenerics, at: a as usize })
        } else if bs >= b {
            Result::Err(ParseError { kind: ParseErrorKind::MalformedGenerics, at: a as usize })
        } else {
            Result::Ok(GenericParamView { name: s.subrange(a, ne), bounds: s.subrange(bs, b) })
        }
    }
}

/// The comma-separated parameter list between the angle brackets, which span
/// `[i, end)` at bracket depth one. A single trailing comma is allowed.
pub open spec fn spec_parse_params(s: Seq<char>, i: int, end: int) -> Result<
    Seq<GenericParamView>,
    ParseError,
>
    decreases end - i,
    via spec_parse_params_dec
{
    let j = first_at(s, ',', 1, i, end);
    let a = spec_skip_ws(s, i, j);
    let b = spec_rskip_ws(s, a, j);
    if a >= b {
        if j >= end {
            Result::Ok(Seq::<GenericParamView>::empty())
        } else {
            Result::Err(ParseError { kind: ParseErrorKind::MalformedGenerics, at: i as usize })
        }
    } else {
        match spec_parse_param(s, a, b) {
            Result::Err(e) => Result::Err(e),
            Result::Ok(p) => {
                if j >= end {
                    Result::Ok(seq![p])
                } else {
                    match spec_parse_params(s, j + 1, end) {
                        Result::Ok(rest) => Result::Ok(seq![p] + rest),
                        Result::Err(e) => Result::Err(e),
                    }
                }
            },
        }
    }
}

#[via_fn]
proof fn spec_parse_params_dec(s: Seq<char>, i: int, end: int) {
    if i <= end {
        lemma_first_at_range(s, ',', 1, i, end);
    }
}

/// The target kind that starts at `from` (whitespace is skipped first) and
/// runs to the end of `s`.
pub open spec fn spec_parse_kind(s: Seq<char>, from: int) -> Result<ArgKindView, ParseError> {
    let i = spec_skip_ws(s, from, s.len() as int);
    if starts_trait_kw(s, i) {
        let b = spec_skip_ws(s, i + 5, s.len() as int);
        if !region_balanced(s, b) {
            Result::Err(ParseError { kind: ParseErrorKind::MalformedConstraintList, at: i as usize })
        } else {
            let comma = first_at(s, ',', 0, b, s.len() as int);
            if comma < s.len() {
                Result::Err(ParseError { kind: ParseErrorKind::TrailingTokens, at: comma as usize })
            } else {
                match spec_parse_bounds(s, b) {
                    Result::Err(e) => Result::Err(e),
                    Result::Ok(cs) => {
                        if cs.len() == 0 {
                            Result::Err(
                                ParseError {
                                    kind: ParseErrorKind::MalformedConstraintList,
                                    at: i as usize,
                                },
                            )
                        } else {
                            Result::Ok(ArgKindView::TraitBound { constraints: cs })
                        }
                    },
                }
            }
        }
    } else {
        let b = spec_rskip_ws(s, i, s.len() as int);
        if b <= i {
            Result::Err(ParseError { kind: ParseErrorKind::MalformedTypeExpr, at: i as usize })
        } else if !region_balanced(s, i) {
            Result::Err(ParseError { kind: ParseErrorKind::MalformedTypeExpr, at: i as usize })
        } else {
            let comma = first_at(s, ',', 0, i, s.len() as int);
            if comma < s.len() {
                Result::Err(ParseError { kind: ParseErrorKind::TrailingTokens, at: comma as usize })
            } else {
                Result::Ok(ArgKindView::Type { ty: s.subrange(i, b) })
            }
        }
    }
}

/// The whole annotation: an optional `<...>` generic-parameter list, then a
/// target kind that consumes the rest of the text.
pub open spec fn spec_parse_args(s: Seq<char>) -> Result<ArgsView, ParseError> {
    let i = spec_skip_ws(s, 0, s.len() as int);
    if i < s.len() && s[i] == '<' {
        let close = first_depth_return(s, i + 1);
        if close >= s.len() || s[close] != '>' {
            Result::Err(ParseError { kind: ParseErrorKind::MalformedGenerics, at: i as usize })
        } else {
            match spec_parse_params(s, i + 1, close) {
                Result::Err(e) => Result::Err(e),
                Result::Ok(ps) => match spec_parse_kind(s, close + 1) {
                    Result::Err(e) => Result::Err(e),
                    Result::Ok(k) => Result::Ok(
                        ArgsView { kind: k, generics: Option::Some(ps) },
                    ),
                },
            }
        }
    } else {
        match spec_parse_kind(s, i) {
            Result::Err(e) => Result::Err(e),
            Result::Ok(k) => Result::Ok(ArgsView { kind: k, generics: Option::<
                Seq<GenericParamView>,
            >::None }),
        }
    }
}

fn parse_bounds(s: &str, start: usize) -> (r: Result<Vec<String>, ParseError>)
    requires
        start <= s@.len(),
        depth(s@, start as int) == 0,
    ensures
        (match spec_parse_bounds(s@, start as int) {
            Result::Ok(v) => r matches Result::Ok(bs) && strings_view(bs@) == v,
            Result::Err(e) => r == Result::<Vec<String>, ParseError>::Err(e),
        }),
{
    let len = s.unicode_len();
    let mut acc: Vec<String> = Vec::new();
    let mut cur: usize = start;
    loop
        invariant
            start <= cur <= len,
            len == s@.len(),
            depth(s@, cur as int) == 0,
            (spec_parse_bounds(s@, start as int) matches Result::Ok(all) ==> (
            spec_parse_bounds(s@, cur as int) matches Result::Ok(rest) && all == strings_view(
                acc@,
            ) + rest)),
            (spec_parse_bounds(s@, start as int) matches Result::Err(e) ==> (spec_parse_bounds(
                s@,
                cur as int,
            ) matches Result::Err(e2) && e2 == e)),
        decreases len - cur,
    {
        let j = find_at(s, '+', 0, cur, len, 0);
        let a = skip_ws(s, cur, j);
        let b = rskip_ws(s, a, j);
        if a >= b {
            if j >= len {
                proof {
                    assert(strings_view(acc@) + Seq::<Seq<char>>::empty() =~= strings_view(acc@));
                }
                return Result::Ok(acc);
            } else {
                return Result::Err(
                    ParseError { kind: ParseErrorKind::MalformedConstraintList, at: cur },
                );
            }
        }
        let piece = s.substring_char(a, b).to_owned();
        if j >= len {
            proof {
                lemma_strings_view_push(acc@, piece);
                assert(strings_view(acc@) + seq![piece@] =~= strings_view(acc@).push(piece@));
            }
            acc.push(piece);
            return Result::Ok(acc);
        }
        proof {
            lemma_first_at_found(s@, '+', 0, cur as int, len as int);
            assert(depth(s@, j as int + 1) == depth(s@, j as int) + bracket_delta(
                s@[j as int - 1],
                s@[j as int],
            )) by {
                assert(j >= 1) by {
                    if j == 0 {
                        assert(depth(s@, 0int) == 0);
                    }
                }
            }
            lemma_strings_view_push(acc@, piece);
            match spec_parse_bounds(s@, j as int + 1) {
                Result::Ok(rest2) => {
                    assert(strings_view(acc@) + (seq![piece@] + rest2) =~= strings_view(
                        acc@.push(piece),
                    ) + rest2);
                },
                Result::Err(_) => {},
            }
        }
        acc.push(piece);
        cur = j + 1;
    }
}

fn parse_param(s: &str, a: usize, b: usize) -> (r: Result<GenericParam, ParseError>)
    requires
        a < b <= s@.len(),
        depth(s@, a as int) == 1,
    ensures
        (match spec_parse_param(s@, a as int, b as int) {
            Result::Ok(p) => r matches Result::Ok(q) && q@ == p,
            Result::Err(e) => r == Result::<GenericParam, ParseError>::Err(e),
        }),
{
    let c = find_at(s, ':', 1, a, b, 1);
    if c >= b {
        if is_ident(s, a, b) {
            let name = s.substring_char(a, b).to_owned();
            Result::Ok(GenericParam { name, bounds: String::new() })
        } else {
            Result::Err(ParseError { kind: ParseErrorKind::MalformedGenerics, at: a })
        }
    } else {
        let ne = rskip_ws(s, a, c);
        let bs = skip_ws(s, c + 1, b);
        if !is_ident(s, a, ne) {
            Result::Err(ParseError { kind: ParseErrorKind::MalformedGenerics, at: a })
        } else if bs >= b {
            Result::Err(ParseError { kind: ParseErrorKind::MalformedGenerics, at: a })
        } else {
            let name = s.substring_char(a, ne).to_owned();
            let bounds = s.substring_char(bs, b).to_owned();
            Result::Ok(GenericParam { name, bounds })
        }
    }
}

fn parse_params(s: &str, start: usize, end: usize) -> (r: Result<Vec<GenericParam>, ParseError>)
    requires
        start <= end <= s@.len(),
        depth(s@, start as int) == 1,
    ensures
        (match spec_parse_params(s@, start as int, end as int) {
            Result::Ok(v) => r matches Result::Ok(ps) && params_view(ps@) == v,
            Result::Err(e) => r == Result::<Vec<GenericParam>, ParseError>::Err(e),
        }),
{
    let mut acc: Vec<GenericParam> = Vec::new();
    let mut cur: usize = start;
    loop
        invariant
            start <= cur <= end <= s@.len(),
            depth(s@, cur as int) == 1,
            (spec_parse_params(s@, start as int, end as int) matches Result::Ok(all) ==> (
            spec_parse_params(s@, cur as int, end as int) matches Result::Ok(rest) && all
                == params_view(acc@) + rest)),
            (spec_parse_params(s@, start as int, end as int) matches Result::Err(e) ==> (
            spec_parse_params(s@, cur as int, end as int) matches Result::Err(e2) && e2 == e)),
        decreases end - cur,
    {
        let j = find_at(s, ',', 1, cur, end, 1);
        let a = skip_ws(s, cur, j);
        let b = rskip_ws(s, a, j);
        if a >= b {
            if j >= end {
                proof {
                    assert(params_view(acc@) + Seq::<GenericParamView>::empty() =~= params_view(
                        acc@,
                    ));
                }
                return Result::Ok(acc);
            } else {
                return Result::Err(
                    ParseError { kind: ParseErrorKind::MalformedGenerics, at: cur },
                );
            }
        }
        proof {
            lemma_depth_after_skip(s@, cur as int, j as int);
        }
        let p = match parse_param(s, a, b) {
            Result::Ok(p) => p,
            Result::Err(e) => {
                return Result::Err(e);
            },
        };
        if j >= end {
            proof {
                lemma_params_view_push(acc@, p);
                assert(params_view(acc@) + seq![p@] =~= params_view(acc@).push(p@));
            }
            acc.push(p);
            return Result::Ok(acc);
        }
        proof {
            lemma_first_at_found(s@, ',', 1, cur as int, end as int);
            assert(j >= 1) by {
                if j == 0 {
                    assert(depth(s@, 0int) == 0);
                }
            }
            assert(depth(s@, j as int + 1) == depth(s@, j as int) + bracket_delta(
                s@[j as int - 1],
                s@[j as int],
            ));
            lemma_params_view_push(acc@, p);
            match spec_parse_params(s@, j as int + 1, end as int) {
                Result::Ok(rest2) => {
                    assert(params_view(acc@) + (seq![p@] + rest2) =~= params_view(acc@.push(p))
                        + rest2);
                },
                Result::Err(_) => {},
            }
        }
        acc.push(p);
        cur = j + 1;
    }
}

impl ArgKind {
    /// Parse the target kind that starts at `from` and runs to the end.
    pub fn parse(s: &str, from: usize) -> (r: Result<ArgKind, ParseError>)
        requires
            from <= s@.len(),
            depth(s@, from as int) == 0,
        ensures
            (match spec_parse_kind(s@, from as int) {
                Result::Ok(v) => r matches Result::Ok(k) && k@ == v,
                Result::Err(e) => r == Result::<ArgKind, ParseError>::Err(e),
            }),
    {
        let len = s.unicode_len();
        let i = skip_ws(s, from, len);
        proof {
            lemma_depth_after_skip(s@, from as int, len as int);
        }
        let is_trait_kw = i < len && len - i >= 5 && s.get_char(i) == 't' && s.get_char(i + 1)
            == 'r' && s.get_char(i + 2) == 'a' && s.get_char(i + 3) == 'i' && s.get_char(i + 4)
            == 't' && (i + 5 == len || !exec_is_ident_char(s.get_char(i + 5)));
        assert(is_trait_kw == starts_trait_kw(s@, i as int));
        if is_trait_kw {
            proof {
                assert(depth(s@, i as int + 1) == depth(s@, i as int));
                assert(depth(s@, i as int + 2) == depth(s@, i as int + 1));
                assert(depth(s@, i as int + 3) == depth(s@, i as int + 2));
                assert(depth(s@, i as int + 4) == depth(s@, i as int + 3));
                assert(depth(s@, i as int + 5) == depth(s@, i as int + 4));
            }
            let b = skip_ws(s, i + 5, len);
            proof {
                lemma_depth_after_skip(s@, i as int + 5, len as int);
            }
            if !check_region_balanced(s, b, 0) {
                return Result::Err(
                    ParseError { kind: ParseErrorKind::MalformedConstraintList, at: i },
                );
            }
            let comma = find_at(s, ',', 0, b, len, 0);
            if comma < len {
                return Result::Err(ParseError { kind: ParseErrorKind::TrailingTokens, at: comma });
            }
            match parse_bounds(s, b) {
                Result::Err(e) => Result::Err(e),
                Result::Ok(cs) => {
                    if cs.len() == 0 {
                        Result::Err(
                            ParseError { kind: ParseErrorKind::MalformedConstraintList, at: i },
                        )
                    } else {
                        Result::Ok(ArgKind::TraitBound(cs))
                    }
                },
            }
        } else {
            let b = rskip_ws(s, i, len);
            if b <= i {
                return Result::Err(ParseError { kind: ParseErrorKind::MalformedTypeExpr, at: i });
            }
            if !check_region_balanced(s, i, 0) {
                return Result::Err(ParseError { kind: ParseErrorKind::MalformedTypeExpr, at: i });
            }
            let comma = find_at(s, ',', 0, i, len, 0);
            if comma < len {
                return Result::Err(ParseError { kind: ParseErrorKind::TrailingTokens, at: comma });
            }
            let ty = s.substring_char(i, b).to_owned();
            Result::Ok(ArgKind::Type(ty))
        }
    }
}

impl Args {
    /// Parse a whole target specification out of the annotation's argument
    /// text.
    pub fn parse(input: &str) -> (r: Result<Args, ParseError>)
        ensures
            (match spec_parse_args(input@) {
                Result::Ok(v) => r matches Result::Ok(a) && a@ == v,
                Result::Err(e) => r == Result::<Args, ParseError>::Err(e),
            }),
    {
        let len = input.unicode_len();
        let i = skip_ws(input, 0, len);
        proof {
            lemma_depth_after_skip(input@, 0int, len as int);
        }
        if i < len && input.get_char(i) == '<' {
            proof {
                assert(depth(input@, i as int + 1) == depth(input@, i as int) + bracket_delta(
                    crate::text::prev_char(input@, i as int),
                    input@[i as int],
                ));
            }
            let close = find_depth_return(input, i + 1, 1);
            if close >= len {
                return Result::Err(ParseError { kind: ParseErrorKind::MalformedGenerics, at: i });
            }
            if input.get_char(close) != '>' {
                return Result::Err(ParseError { kind: ParseErrorKind::MalformedGenerics, at: i });
            }
            match parse_params(input, i + 1, close) {
                Result::Err(e) => Result::Err(e),
                Result::Ok(ps) => {
                    match ArgKind::parse(input, close + 1) {
                        Result::Err(e) => Result::Err(e),
                        Result::Ok(kind) => Result::Ok(
                            Args { kind, generics: Option::Some(ps) },
                        ),
                    }
                },
            }
        } else {
            match ArgKind::parse(input, i) {
                Result::Err(e) => Result::Err(e),
                Result::Ok(kind) => Result::Ok(Args { kind, generics: Option::None }),
            }
        }
    }
}

} // verus!
