//! Character-level scanning over annotation text: whitespace, identifiers,
//! bracket depth, and searches for separators that stand outside brackets.

use vstd::prelude::*;

verus! {

/// Characters treated as whitespace between tokens of an annotation.
pub open spec fn is_space_char(c: char) -> bool {
    c == ' ' || c == '\t' || c == '\n' || c == '\r'
}

/// Characters that may open an identifier.
pub open spec fn is_ident_start(c: char) -> bool {
    ('a' <= c && c <= 'z') || ('A' <= c && c <= 'Z') || c == '_'
}

/// Characters that may continue an identifier.
pub open spec fn is_ident_char(c: char) -> bool {
    is_ident_start(c) || ('0' <= c && c <= '9')
}

/// `s[from..to]` is a well-formed identifier.
pub open spec fn is_ident_range(s: Seq<char>, from: int, to: int) -> bool {
    &&& 0 <= from < to <= s.len()
    &&& is_ident_start(s[from])
    &&& forall|k: int| from < k < to ==> is_ident_char(#[trigger] s[k])
}

/// How one character changes the bracket depth. A `>` preceded by `-` closes
/// nothing: it ends the arrow of a function type such as `fn() -> u8`.
pub open spec fn bracket_delta(prev: char, c: char) -> int {
    if c == '<' || c == '(' || c == '[' {
        1
    } else if c == ')' || c == ']' {
        -1
    } else if c == '>' {
        if prev == '-' {
            0
        } else {
            -1
        }
    } else {
        0
    }
}

/// The character just before position `i`, or a space at the start.
pub open spec fn prev_char(s: Seq<char>, i: int) -> char {
    if i <= 0 {
        ' '
    } else {
        s[i - 1]
    }
}

/// Net bracket depth after the first `i` characters of `s`.
pub open spec fn depth(s: Seq<char>, i: int) -> int
    decreases i,
{
    if i <= 0 || i > s.len() {
        0
    } else {
        depth(s, i - 1) + bracket_delta(prev_char(s, i - 1), s[i - 1])
    }
}

/// First position in `[i, end)` holding a non-space character, or `end`.
pub open spec fn spec_skip_ws(s: Seq<char>, i: int, end: int) -> int
    decreases end - i,
{
    if i >= end || !(0 <= i < s.len()) {
        end
    } else if is_space_char(s[i]) {
        spec_skip_ws(s, i + 1, end)
    } else {
        i
    }
}

/// Position after the last non-space character of `s[from..to]`, or `from`
/// when that range is all spaces.
pub open spec fn spec_rskip_ws(s: Seq<char>, from: int, to: int) -> int
    decreases to - from,
{
    if to <= from || !(0 < to <= s.len()) {
        from
    } else if is_space_char(s[to - 1]) {
        spec_rskip_ws(s, from, to - 1)
    } else {
        to
    }
}

/// First position in `[i, end)` where `c` occurs at bracket depth `d`, or `end`.
pub open spec fn first_at(s: Seq<char>, c: char, d: int, i: int, end: int) -> int
    decreases end - i,
{
    if i >= end || !(0 <= i < s.len()) {
        end
    } else if s[i] == c && depth(s, i) == d {
        i
    } else {
        first_at(s, c, d, i + 1, end)
    }
}

/// First position `j >= i` where the depth after `j + 1` characters is back to
/// zero, or `s.len()` when the depth never returns.
pub open spec fn first_depth_return(s: Seq<char>, i: int) -> int
    decreases s.len() - i,
{
    if i < 0 || i >= s.len() {
        s.len() as int
    } else if depth(s, i + 1) <= 0 {
        i
    } else {
        first_depth_return(s, i + 1)
    }
}

/// From position `i` to the end, the bracket depth never goes negative and
/// ends at zero.
pub open spec fn region_balanced(s: Seq<char>, i: int) -> bool {
    depth(s, s.len() as int) == 0 && forall|k: int| i <= k <= s.len() ==> depth(s, k) >= 0
}

/// The depth after `i` characters can be at most `i` in either direction.
pub proof fn lemma_depth_bound(s: Seq<char>, i: int)
    requires
        0 <= i,
    ensures
        -i <= depth(s, i) <= i,
    decreases i,
{
    if i > 0 {
        lemma_depth_bound(s, i - 1);
    }
}

/// A separator search stays within its bounds.
pub proof fn lemma_first_at_range(s: Seq<char>, c: char, d: int, i: int, end: int)
    requires
        i <= end,
    ensures
        i <= first_at(s, c, d, i, end) <= end,
    decreases end - i,
{
    if i < end && 0 <= i < s.len() && !(s[i] == c && depth(s, i) == d) {
        lemma_first_at_range(s, c, d, i + 1, end);
    }
}

/// A found separator really is the character searched for, at the depth asked.
pub proof fn lemma_first_at_found(s: Seq<char>, c: char, d: int, i: int, end: int)
    requires
        0 <= i,
        end <= s.len(),
    ensures
        first_at(s, c, d, i, end) < end ==> {
            let j = first_at(s, c, d, i, end);
            s[j] == c && depth(s, j) == d
        },
    decreases end - i,
{
    if i < end && 0 <= i < s.len() && !(s[i] == c && depth(s, i) == d) {
        lemma_first_at_found(s, c, d, i + 1, end);
    }
}

/// Skipping whitespace does not change the bracket depth.
pub proof fn lemma_depth_after_skip(s: Seq<char>, i: int, end: int)
    requires
        0 <= i <= end <= s.len(),
    ensures
        depth(s, spec_skip_ws(s, i, end)) == depth(s, i),
        i <= spec_skip_ws(s, i, end) <= end,
    decreases end - i,
{
    if i < end && is_space_char(s[i]) {
        assert(depth(s, i + 1) == depth(s, i));
        lemma_depth_after_skip(s, i + 1, end);
    }
}

pub fn exec_is_space(c: char) -> (r: bool)
    ensures
        r == is_space_char(c),
{
    c == ' ' || c == '\t' || c == '\n' || c == '\r'
}

pub fn exec_is_ident_start(c: char) -> (r: bool)
    ensures
        r == is_ident_start(c),
{
    ('a' <= c && c <= 'z') || ('A' <= c && c <= 'Z') || c == '_'
}

pub fn exec_is_ident_char(c: char) -> (r: bool)
    ensures
        r == is_ident_char(c),
{
    exec_is_ident_start(c) || ('0' <= c && c <= '9')
}

pub fn exec_bracket_delta(prev: char, c: char) -> (r: i8)
    ensures
        r as int == bracket_delta(prev, c),
{
    if c == '<' || c == '(' || c == '[' {
        1
    } else if c == ')' || c == ']' {
        -1
    } else if c == '>' {
        if prev == '-' {
            0
        } else {
            -1
        }
    } else {
        0
    }
}

pub fn skip_ws(s: &str, i: usize, end: usize) -> (r: usize)
    requires
        i <= end <= s@.len(),
    ensures
        r == spec_skip_ws(s@, i as int, end as int),
        i <= r <= end,
{
    let mut k: usize = i;
    while k < end && exec_is_space(s.get_char(k))
        invariant
            end <= s@.len(),
            i <= k <= end,
            spec_skip_ws(s@, i as int, end as int) == spec_skip_ws(s@, k as int, end as int),
        decreases end - k,
    {
        k = k + 1;
    }
    k
}

pub fn rskip_ws(s: &str, from: usize, to: usize) -> (r: usize)
    requires
        from <= to <= s@.len(),
    ensures
        r == spec_rskip_ws(s@, from as int, to as int),
        from <= r <= to,
{
    let mut k: usize = to;
    while k > from && exec_is_space(s.get_char(k - 1))
        invariant
            to <= s@.len(),
            from <= k <= to,
            spec_rskip_ws(s@, from as int, to as int) == spec_rskip_ws(s@, from as int, k as int),
        decreases k,
    {
        k = k - 1;
    }
    k
}

/// Search `[i, end)` of `s` for `c` at bracket depth `d`, given the depth
/// `cur_depth` after the first `i` characters.
pub fn find_at(s: &str, c: char, d: i128, i: usize, end: usize, cur_depth: i128) -> (r: usize)
    requires
        i <= end <= s@.len(),
        cur_depth as int == depth(s@, i as int),
    ensures
        r == first_at(s@, c, d as int, i as int, end as int),
        i <= r <= end,
{
    proof {
        lemma_depth_bound(s@, i as int);
    }
    let mut k: usize = i;
    let mut dep: i128 = cur_depth;
    while k < end
        invariant
            end <= s@.len(),
            i <= k <= end,
            dep as int == depth(s@, k as int),
            -(k as int) - 1 <= dep as int <= k as int + 1,
            first_at(s@, c, d as int, i as int, end as int) == first_at(
                s@,
                c,
                d as int,
                k as int,
                end as int,
            ),
        decreases end - k,
    {
        let ch = s.get_char(k);
        if ch == c && dep == d {
            return k;
        }
        let prev: char = if k == 0 {
            ' '
        } else {
            s.get_char(k - 1)
        };
        proof {
            lemma_depth_bound(s@, k as int + 1);
        }
        dep = dep + exec_bracket_delta(prev, ch) as i128;
        k = k + 1;
    }
    k
}

/// Find the position where the bracket depth first returns to zero, starting
/// the search at `i` with a current depth of `cur_depth` after `i` characters.
pub fn find_depth_return(s: &str, i: usize, cur_depth: i128) -> (r: usize)
    requires
        i <= s@.len(),
        cur_depth as int == depth(s@, i as int),
        cur_depth >= 1,
    ensures
        r == first_depth_return(s@, i as int),
        i <= r <= s@.len(),
        r < s@.len() ==> depth(s@, r as int + 1) == 0,
{
    proof {
        lemma_depth_bound(s@, i as int);
    }
    let mut k: usize = i;
    let mut dep: i128 = cur_depth;
    while k < s.unicode_len()
        invariant
            i <= k <= s@.len(),
            dep as int == depth(s@, k as int),
            dep >= 1,
            -(k as int) - 1 <= dep as int <= k as int + 1,
            first_depth_return(s@, i as int) == first_depth_return(s@, k as int),
        decreases s@.len() - k,
    {
        let ch = s.get_char(k);
        let prev: char = if k == 0 {
            ' '
        } else {
            s.get_char(k - 1)
        };
        proof {
            lemma_depth_bound(s@, k as int + 1);
        }
        let next_dep: i128 = dep + exec_bracket_delta(prev, ch) as i128;
        assert(next_dep as int == depth(s@, k as int + 1));
        if next_dep <= 0 {
            return k;
        }
        dep = next_dep;
        k = k + 1;
    }
    k
}

/// Check that from position `i` on, brackets are balanced: the depth never
/// goes negative and is zero at the end. `cur_depth` is the depth after `i`
/// characters; the check only succeeds when it is non-negative too.
pub fn check_region_balanced(s: &str, i: usize, cur_depth: i128) -> (r: bool)
    requires
        i <= s@.len(),
        cur_depth as int == depth(s@, i as int),
        cur_depth >= 0,
    ensures
        r == region_balanced(s@, i as int),
{
    proof {
        lemma_depth_bound(s@, i as int);
    }
    let mut k: usize = i;
    let mut dep: i128 = cur_depth;
    while k < s.unicode_len()
        invariant
            i <= k <= s@.len(),
            dep as int == depth(s@, k as int),
            -(k as int) - 1 <= dep as int <= k as int + 1,
            forall|j: int| i <= j <= k ==> depth(s@, j) >= 0,
        decreases s@.len() - k,
    {
        let ch = s.get_char(k);
        let prev: char = if k == 0 {
            ' '
        } else {
            s.get_char(k - 1)
        };
        proof {
            lemma_depth_bound(s@, k as int + 1);
        }
        let next_dep: i128 = dep + exec_bracket_delta(prev, ch) as i128;
        assert(next_dep as int == depth(s@, k as int + 1));
        if next_dep < 0 {
            assert(!region_balanced(s@, i as int));
            return false;
        }
        dep = next_dep;
        k = k + 1;
    }
    dep == 0
}

/// Check that `s[from..to]` is a well-formed identifier.
pub fn is_ident(s: &str, from: usize, to: usize) -> (r: bool)
    requires
        to <= s@.len(),
    ensures
        r == is_ident_range(s@, from as int, to as int),
{
    if from >= to {
        return false;
    }
    if !exec_is_ident_start(s.get_char(from)) {
        return false;
    }
    let mut k: usize = from + 1;
    while k < to
        invariant
            from < k <= to,
            to <= s@.len(),
            is_ident_start(s@[from as int]),
            forall|j: int| from < j < k ==> is_ident_char(#[trigger] s@[j]),
        decreases to - k,
    {
        if !exec_is_ident_char(s.get_char(k)) {
            return false;
        }
        k = k + 1;
    }
    true
}

} // verus!
