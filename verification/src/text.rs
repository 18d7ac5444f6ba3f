//! Character-level utilities shared by the parsers and the editors.
//!
//! Verified code works on `Vec<char>` / `Seq<char>`; these helpers move
//! between `&str`/`String` and that representation and provide the small
//! sequence predicates the contracts are written with.

use vstd::prelude::*;

verus! {

/// `prefix` occurs in `s` starting at position `i`.
pub open spec fn occurs_at(s: Seq<char>, prefix: Seq<char>, i: int) -> bool {
    &&& 0 <= i
    &&& i + prefix.len() <= s.len()
    &&& s.subrange(i, i + prefix.len() as int) == prefix
}

/// `s` starts with `prefix`.
pub open spec fn starts_with(s: Seq<char>, prefix: Seq<char>) -> bool {
    occurs_at(s, prefix, 0)
}

/// `needle` occurs somewhere in `s`.
pub open spec fn contains_seq(s: Seq<char>, needle: Seq<char>) -> bool {
    exists|i: int| occurs_at(s, needle, i)
}

/// Copy the characters of `s` into a vector.
pub fn str_to_chars(s: &str) -> (v: Vec<char>)
    ensures
        v@ == s@,
{
    let n = s.unicode_len();
    let mut v: Vec<char> = Vec::new();
    let mut i: usize = 0;
    while i < n
        invariant
            i <= n,
            n == s@.len(),
            v@ == s@.subrange(0, i as int),
        decreases n - i,
    {
        v.push(s.get_char(i));
        assert(v@ =~= s@.subrange(0, i + 1));
        i += 1;
    }
    assert(v@ =~= s@);
    v
}

/// Relies on `String::push`: appends one character.
#[verifier::external_body]
fn push_char(s: &mut String, c: char)
    ensures
        final(s)@ == old(s)@.push(c),
{
    s.push(c)
}

/// Build a `String` out of a vector of characters.
pub fn chars_to_string(v: &Vec<char>) -> (s: String)
    ensures
        s@ == v@,
{
    let mut s = String::new();
    let mut i: usize = 0;
    while i < v.len()
        invariant
            i <= v.len(),
            s@ == v@.subrange(0, i as int),
        decreases v.len() - i,
    {
        push_char(&mut s, v[i]);
        assert(s@ =~= v@.subrange(0, i + 1));
        i += 1;
    }
    assert(s@ =~= v@);
    s
}

/// Compare a character vector against a string slice.
pub fn chars_eq_str(v: &Vec<char>, s: &str) -> (r: bool)
    ensures
        r == (v@ == s@),
{
    let n = s.unicode_len();
    if v.len() != n {
        return false;
    }
    let mut i: usize = 0;
    while i < n
        invariant
            i <= n,
            n == s@.len(),
            v@.len() == n,
            forall|j: int| 0 <= j < i ==> v@[j] == s@[j],
        decreases n - i,
    {
        if v[i] != s.get_char(i) {
            return false;
        }
        i += 1;
    }
    assert(v@ =~= s@);
    true
}

/// Does `v` start with the characters of `p`, beginning at `from`?
pub fn starts_with_at(v: &Vec<char>, p: &str, from: usize) -> (r: bool)
    requires
        from <= v@.len(),
    ensures
        r == occurs_at(v@, p@, from as int),
{
    let n = p.unicode_len();
    if n > v.len() - from {
        return false;
    }
    let mut i: usize = 0;
    while i < n
        invariant
            i <= n,
            n == p@.len(),
            from + n <= v@.len(),
            v@.len() <= usize::MAX,
            forall|j: int| 0 <= j < i ==> v@[from + j] == p@[j],
        decreases n - i,
    {
        if v[from + i] != p.get_char(i) {
            assert(!occurs_at(v@, p@, from as int)) by {
                if occurs_at(v@, p@, from as int) {
                    assert(v@.subrange(from as int, from + p@.len() as int)[i as int]
                        == v@[from + i]);
                }
            }
            return false;
        }
        i += 1;
    }
    assert(v@.subrange(from as int, from + p@.len() as int) =~= p@);
    true
}

/// Does `v` contain the characters of `p` anywhere?
pub fn contains_str(v: &Vec<char>, p: &str) -> (r: bool)
    ensures
        r == contains_seq(v@, p@),
{
    let mut i: usize = 0;
    while i < v.len()
        invariant
            i <= v@.len(),
            forall|j: int| 0 <= j < i ==> !occurs_at(v@, p@, j),
        decreases v.len() - i,
    {
        if starts_with_at(v, p, i) {
            return true;
        }
        i += 1;
    }
    assert(forall|j: int| occurs_at(v@, p@, j) ==> 0 <= j < v@.len() || j + p@.len() <= v@.len());
    if p.unicode_len() == 0 {
        assert(occurs_at(v@, p@, v@.len() as int)) by {
            assert(v@.subrange(v@.len() as int, v@.len() as int) =~= p@);
        }
        return true;
    }
    assert(forall|j: int| !occurs_at(v@, p@, j)) by {
        assert(forall|j: int| j >= v@.len() && p@.len() > 0 ==> !occurs_at(v@, p@, j));
    }
    false
}

/// Index of the first occurrence of `c` in `s`, or `s.len()` if absent.
pub open spec fn first_idx(s: Seq<char>, c: char) -> int
    decreases s.len(),
{
    if s.len() == 0 {
        0
    } else if s[0] == c {
        0
    } else {
        1 + first_idx(s.drop_first(), c)
    }
}

pub proof fn lemma_first_idx(s: Seq<char>, c: char)
    ensures
        0 <= first_idx(s, c) <= s.len(),
        first_idx(s, c) < s.len() ==> s[first_idx(s, c)] == c,
        forall|j: int| 0 <= j < first_idx(s, c) ==> s[j] != c,
    decreases s.len(),
{
    if s.len() > 0 && s[0] != c {
        lemma_first_idx(s.drop_first(), c);
        assert forall|j: int| 0 <= j < first_idx(s, c) implies s[j] != c by {
            if j > 0 {
                assert(s.drop_first()[j - 1] == s[j]);
                assert(j - 1 < first_idx(s.drop_first(), c));
            }
        };
    }
}

/// Find the first occurrence of `c` in `v`; `v.len()` when absent.
pub fn find_first(v: &Vec<char>, c: char) -> (r: usize)
    ensures
        r == first_idx(v@, c),
{
    proof {
        lemma_first_idx(v@, c);
    }
    let mut i: usize = 0;
    while i < v.len()
        invariant
            0 <= first_idx(v@, c) <= v@.len(),
            first_idx(v@, c) < v@.len() ==> v@[first_idx(v@, c)] == c,
            forall|j: int| 0 <= j < first_idx(v@, c) ==> v@[j] != c,
            i <= v@.len(),
            forall|j: int| 0 <= j < i ==> v@[j] != c,
        decreases v.len() - i,
    {
        if v[i] == c {
            assert(i >= first_idx(v@, c));
            return i;
        }
        i += 1;
    }
    assert(first_idx(v@, c) == v@.len()) by {
        if first_idx(v@, c) < v@.len() {
            assert(v@[first_idx(v@, c)] == c);
        }
    }
    i
}

/// Copy `v[from..to]` into a fresh vector.
pub fn subvec(v: &Vec<char>, from: usize, to: usize) -> (r: Vec<char>)
    requires
        from <= to <= v@.len(),
    ensures
        r@ == v@.subrange(from as int, to as int),
{
    let mut r: Vec<char> = Vec::new();
    let mut i: usize = from;
    while i < to
        invariant
            from <= i <= to <= v@.len(),
            r@ == v@.subrange(from as int, i as int),
        decreases to - i,
    {
        r.push(v[i]);
        assert(r@ =~= v@.subrange(from as int, i + 1));
        i += 1;
    }
    r
}

/// Whether `c` has the Unicode white-space property, as `char::is_whitespace`
/// decides it.
pub uninterp spec fn char_is_whitespace(c: char) -> bool;

/// Relies on `char::is_whitespace`: the Unicode white-space property, which
/// holds of a space, a tab and the line-break characters.
#[verifier::external_body]
pub fn is_whitespace_char(c: char) -> (r: bool)
    ensures
        r == char_is_whitespace(c),
        c == ' ' || c == '\t' || c == '\n' || c == '\r' ==> r,
{
    c.is_whitespace()
}

/// First position at or after `i` holding a white-space character;
/// `s.len()` when there is none.
pub open spec fn next_ws(s: Seq<char>, i: int) -> int
    decreases s.len() - i,
{
    if i >= s.len() {
        s.len() as int
    } else if char_is_whitespace(s[i]) {
        i
    } else {
        next_ws(s, i + 1)
    }
}

/// First position at or after `i` holding a non-white-space character;
/// `s.len()` when there is none.
pub open spec fn next_non_ws(s: Seq<char>, i: int) -> int
    decreases s.len() - i,
{
    if i >= s.len() {
        s.len() as int
    } else if !char_is_whitespace(s[i]) {
        i
    } else {
        next_non_ws(s, i + 1)
    }
}

pub proof fn lemma_next_ws_bounds(s: Seq<char>, i: int)
    requires
        0 <= i <= s.len(),
    ensures
        i <= next_ws(s, i) <= s.len(),
        i <= next_non_ws(s, i) <= s.len(),
    decreases s.len() - i,
{
    if i < s.len() {
        lemma_next_ws_bounds(s, i + 1);
    }
}

/// Scan forward from `i` to the first white-space character.
pub fn scan_to_ws(v: &Vec<char>, i: usize) -> (r: usize)
    requires
        i <= v@.len(),
    ensures
        r == next_ws(v@, i as int),
{
    let mut j = i;
    while j < v.len()
        invariant
            i <= j <= v@.len(),
            next_ws(v@, i as int) == next_ws(v@, j as int),
        decreases v.len() - j,
    {
        if is_whitespace_char(v[j]) {
            return j;
        }
        j += 1;
    }
    j
}

/// Scan forward from `i` to the first non-white-space character.
pub fn scan_to_non_ws(v: &Vec<char>, i: usize) -> (r: usize)
    requires
        i <= v@.len(),
    ensures
        r == next_non_ws(v@, i as int),
{
    let mut j = i;
    while j < v.len()
        invariant
            i <= j <= v@.len(),
            next_non_ws(v@, i as int) == next_non_ws(v@, j as int),
        decreases v.len() - j,
    {
        if !is_whitespace_char(v[j]) {
            return j;
        }
        j += 1;
    }
    j
}

/// Find the first occurrence of `p` in `v`.
pub fn find_sub(v: &Vec<char>, p: &str) -> (r: Option<usize>)
    ensures
        match r {
            Some(i) => occurs_at(v@, p@, i as int) && forall|j: int|
                0 <= j < i ==> !occurs_at(v@, p@, j),
            None => !contains_seq(v@, p@),
        },
{
    let mut i: usize = 0;
    while i < v.len()
        invariant
            i <= v@.len(),
            forall|j: int| 0 <= j < i ==> !occurs_at(v@, p@, j),
        decreases v.len() - i,
    {
        if starts_with_at(v, p, i) {
            return Some(i);
        }
        i += 1;
    }
    if p.unicode_len() == 0 {
        assert(occurs_at(v@, p@, v@.len() as int)) by {
            assert(v@.subrange(v@.len() as int, v@.len() as int) =~= p@);
        }
        return Some(v.len());
    }
    assert forall|j: int| true implies !occurs_at(v@, p@, j) by {
        if occurs_at(v@, p@, j) {
            assert(j + p@.len() <= v@.len() && p@.len() > 0);
        }
    }
    None
}

/// The text split at line breaks, each line stripped of a trailing
/// carriage return, as `str::lines` yields it.
pub open spec fn lines_of(s: Seq<char>) -> Seq<Seq<char>>
    decreases s.len(),
{
    if s.len() == 0 {
        Seq::empty()
    } else {
        let i = first_idx(s, '\n');
        if 0 <= i < s.len() {
            seq![strip_cr(s.subrange(0, i))] + lines_of(s.skip(i + 1))
        } else {
            seq![strip_cr(s)]
        }
    }
}

/// A line without its trailing carriage return, if it has one.
pub open spec fn strip_cr(l: Seq<char>) -> Seq<char> {
    if l.len() > 0 && l.last() == '\r' {
        l.drop_last()
    } else {
        l
    }
}

/// Views of a vector of lines.
pub open spec fn line_views(l: Seq<Vec<char>>) -> Seq<Seq<char>> {
    l.map_values(|x: Vec<char>| x@)
}

/// Split text into lines, as `str::lines` does.
pub fn split_lines(v: &Vec<char>) -> (r: Vec<Vec<char>>)
    ensures
        line_views(r@) == lines_of(v@),
{
    let mut r: Vec<Vec<char>> = Vec::new();
    let mut pos: usize = 0;
    proof {
        assert(v@.skip(0) =~= v@);
        assert(line_views(r@) + lines_of(v@) =~= lines_of(v@));
    }
    while pos < v.len()
        invariant
            pos <= v@.len(),
            lines_of(v@) == line_views(r@) + lines_of(v@.skip(pos as int)),
        decreases v.len() - pos,
    {
        let ghost rest = v@.skip(pos as int);
        proof {
            lemma_first_idx(rest, '\n');
        }
        let ghost r0 = line_views(r@);
        let nl = find_from(v, '\n', pos);
        let line_end = if nl < v.len() {
            nl
        } else {
            v.len()
        };
        let mut line = subvec(v, pos, line_end);
        if line.len() > 0 && line[line.len() - 1] == '\r' {
            line.pop();
            assert(line@ =~= v@.subrange(pos as int, line_end as int).drop_last());
        }
        assert(line@ == strip_cr(v@.subrange(pos as int, line_end as int)));
        proof {
            assert(rest.subrange(0, first_idx(rest, '\n')) =~= v@.subrange(
                pos as int,
                line_end as int,
            ));
            if nl < v.len() {
                assert(rest.skip(first_idx(rest, '\n') + 1) =~= v@.skip(nl + 1));
            } else {
                assert(rest =~= v@.subrange(pos as int, line_end as int));
            }
        }
        r.push(line);
        assert(line_views(r@) =~= r0.push(strip_cr(v@.subrange(pos as int, line_end as int))));
        if nl < v.len() {
            pos = nl + 1;
            assert(lines_of(v@) =~= line_views(r@) + lines_of(v@.skip(pos as int)));
        } else {
            pos = v.len();
            assert(v@.skip(pos as int) =~= Seq::<char>::empty());
            assert(lines_of(v@) =~= line_views(r@) + lines_of(v@.skip(pos as int)));
        }
    }
    assert(v@.skip(pos as int) =~= Seq::<char>::empty());
    assert(lines_of(v@) =~= line_views(r@));
    r
}

/// Find the first occurrence of `c` at or after `from`.
pub fn find_from(v: &Vec<char>, c: char, from: usize) -> (r: usize)
    requires
        from <= v@.len(),
    ensures
        from <= r <= v@.len(),
        r - from == first_idx(v@.skip(from as int), c),
        r < v@.len() ==> v@[r as int] == c,
        forall|j: int| from <= j < r ==> v@[j] != c,
{
    proof {
        lemma_first_idx(v@.skip(from as int), c);
    }
    let mut i = from;
    while i < v.len()
        invariant
            from <= i <= v@.len(),
            0 <= first_idx(v@.skip(from as int), c) <= v@.len() - from,
            first_idx(v@.skip(from as int), c) < v@.len() - from ==> v@.skip(from as int)[first_idx(
                v@.skip(from as int),
                c,
            )] == c,
            forall|j: int|
                0 <= j < first_idx(v@.skip(from as int), c) ==> v@.skip(from as int)[j] != c,
            forall|j: int| from <= j < i ==> v@[j] != c,
        decreases v.len() - i,
    {
        if v[i] == c {
            assert(v@.skip(from as int)[i - from] == c);
            assert(i - from >= first_idx(v@.skip(from as int), c));
            assert(i - from <= first_idx(v@.skip(from as int), c)) by {
                if first_idx(v@.skip(from as int), c) < i - from {
                    assert(v@[first_idx(v@.skip(from as int), c) + from] != c);
                    assert(v@.skip(from as int)[first_idx(v@.skip(from as int), c)] == c);
                }
            }
            return i;
        }
        i += 1;
    }
    assert(first_idx(v@.skip(from as int), c) == v@.len() - from) by {
        if first_idx(v@.skip(from as int), c) < v@.len() - from {
            assert(v@.skip(from as int)[first_idx(v@.skip(from as int), c)] == c);
            assert(v@[first_idx(v@.skip(from as int), c) + from] != c);
        }
    }
    i
}

/// Strip white space from both ends, as `str::trim` does.
pub open spec fn trim_spec(s: Seq<char>) -> Seq<char> {
    if next_non_ws(s, 0) == s.len() {
        Seq::empty()
    } else {
        s.subrange(next_non_ws(s, 0), trim_end_idx(s, s.len() as int))
    }
}

/// Position after the last non-white-space character at or before `i`.
pub open spec fn trim_end_idx(s: Seq<char>, i: int) -> int
    decreases i,
{
    if i > 0 && i <= s.len() && char_is_whitespace(s[i - 1]) {
        trim_end_idx(s, i - 1)
    } else {
        i
    }
}

/// Strip white space from both ends of `v`.
pub fn trim_chars(v: &Vec<char>) -> (r: Vec<char>)
    ensures
        r@ == trim_spec(v@),
{
    let start = scan_to_non_ws(v, 0);
    if start == v.len() {
        let r: Vec<char> = Vec::new();
        assert(r@ =~= trim_spec(v@));
        return r;
    }
    let mut e = v.len();
    while e > 0 && is_whitespace_char(v[e - 1])
        invariant
            e <= v@.len(),
            trim_end_idx(v@, v@.len() as int) == trim_end_idx(v@, e as int),
        decreases e,
    {
        e -= 1;
    }
    proof {
        lemma_next_ws_bounds(v@, 0);
        lemma_next_non_ws_char(v@, 0);
        assert(trim_end_idx(v@, e as int) == e);
        lemma_trim_end_ge(v@, v@.len() as int, start as int);
    }
    subvec(v, start, e)
}

/// The first non-white-space position really holds a non-white-space
/// character, with only white space before it.
pub proof fn lemma_next_non_ws_char(s: Seq<char>, i: int)
    requires
        0 <= i <= s.len(),
    ensures
        next_non_ws(s, i) < s.len() ==> !char_is_whitespace(s[next_non_ws(s, i)]),
        forall|j: int| i <= j < next_non_ws(s, i) ==> char_is_whitespace(#[trigger] s[j]),
    decreases s.len() - i,
{
    if i < s.len() && char_is_whitespace(s[i]) {
        lemma_next_non_ws_char(s, i + 1);
    }
}

/// The trimmed end never retreats past a non-white-space character.
proof fn lemma_trim_end_ge(s: Seq<char>, i: int, w: int)
    requires
        0 <= w < i <= s.len(),
        !char_is_whitespace(s[w]),
    ensures
        trim_end_idx(s, i) > w,
    decreases i,
{
    if i > 0 && i <= s.len() && char_is_whitespace(s[i - 1]) {
        lemma_trim_end_ge(s, i - 1, w);
    }
}

/// `c` is a decimal digit.
pub open spec fn is_dec_digit(c: char) -> bool {
    48 <= c as u32 <= 57
}

/// Every character of `s` is a decimal digit.
pub open spec fn all_dec_digits(s: Seq<char>) -> bool {
    forall|i: int| 0 <= i < s.len() ==> is_dec_digit(#[trigger] s[i])
}

/// Numeric value of a digit character.
pub open spec fn digit_value(c: char) -> int {
    c as u32 - 48
}

/// Value of a digit string, most significant digit first.
pub open spec fn dec_value(s: Seq<char>) -> int
    decreases s.len(),
{
    if s.len() == 0 {
        0
    } else {
        dec_value(s.drop_last()) * 10 + digit_value(s.last())
    }
}

/// What `str::parse::<usize>` accepts: an optional `+` sign, then at least
/// one digit, valuing at most `usize::MAX`.
pub open spec fn parse_usize_spec(s: Seq<char>) -> Option<int> {
    let body = if s.len() > 0 && s[0] == '+' {
        s.drop_first()
    } else {
        s
    };
    if body.len() > 0 && all_dec_digits(body) && dec_value(body) <= usize::MAX {
        Some(dec_value(body))
    } else {
        None
    }
}

pub proof fn lemma_dec_value_nonneg(s: Seq<char>)
    requires
        all_dec_digits(s),
    ensures
        dec_value(s) >= 0,
    decreases s.len(),
{
    if s.len() > 0 {
        assert(all_dec_digits(s.drop_last()));
        lemma_dec_value_nonneg(s.drop_last());
    }
}

/// Extending a digit string can only raise its value.
pub proof fn lemma_dec_value_prefix_le(s: Seq<char>, i: int)
    requires
        all_dec_digits(s),
        0 <= i <= s.len(),
    ensures
        dec_value(s.subrange(0, i)) <= dec_value(s),
    decreases s.len() - i,
{
    if i < s.len() {
        lemma_dec_value_prefix_le(s, i + 1);
        let p = s.subrange(0, i);
        let q = s.subrange(0, i + 1);
        assert(q.drop_last() =~= p);
        assert(all_dec_digits(p));
        lemma_dec_value_nonneg(p);
        assert(dec_value(q) == dec_value(p) * 10 + digit_value(s[i]));
    } else {
        assert(s.subrange(0, i) =~= s);
    }
}

/// The numeric value of `c`, when `c` is a decimal digit.
pub fn char_digit(c: char) -> (r: Option<usize>)
    ensures
        match r {
            Some(d) => is_dec_digit(c) && d == digit_value(c),
            None => !is_dec_digit(c),
        },
{
    match c {
        '0' => Some(0),
        '1' => Some(1),
        '2' => Some(2),
        '3' => Some(3),
        '4' => Some(4),
        '5' => Some(5),
        '6' => Some(6),
        '7' => Some(7),
        '8' => Some(8),
        '9' => Some(9),
        _ => None,
    }
}

/// Parse a digit string the way `str::parse::<usize>` does.
pub fn parse_usize(v: &Vec<char>) -> (r: Option<usize>)
    ensures
        match r {
            Some(n) => parse_usize_spec(v@) == Some(n as int),
            None => parse_usize_spec(v@) is None,
        },
{
    let start: usize = if v.len() > 0 && v[0] == '+' {
        1
    } else {
        0
    };
    let ghost body = if v@.len() > 0 && v@[0] == '+' {
        v@.drop_first()
    } else {
        v@
    };
    assert(body =~= v@.subrange(start as int, v@.len() as int));
    if v.len() == start {
        return None;
    }
    let mut val: usize = 0;
    let mut i: usize = start;
    while i < v.len()
        invariant
            start <= i <= v@.len(),
            v@.len() <= usize::MAX,
            body == (if v@.len() > 0 && v@[0] == '+' {
                v@.drop_first()
            } else {
                v@
            }),
            body == v@.subrange(start as int, v@.len() as int),
            all_dec_digits(body.subrange(0, i - start)),
            val == dec_value(body.subrange(0, i - start)),
        decreases v.len() - i,
    {
        let c = v[i];
        let d: usize = match char_digit(c) {
            None => {
                assert(body[i - start] == v@[i as int]);
                return None;
            },
            Some(d) => d,
        };
        let ghost p = body.subrange(0, i - start);
        let ghost q = body.subrange(0, i + 1 - start);
        assert(q.drop_last() =~= p && q.last() == v@[i as int]);
        match val.checked_mul(10) {
            None => {
                proof {
                    lemma_dec_value_nonneg(p);
                    assert(dec_value(q) > usize::MAX);
                    if all_dec_digits(body) {
                        lemma_dec_value_prefix_le(body, i + 1 - start);
                    }
                }
                return None;
            },
            Some(m) => {
                match m.checked_add(d) {
                    None => {
                        proof {
                            assert(dec_value(q) > usize::MAX);
                            if all_dec_digits(body) {
                                lemma_dec_value_prefix_le(body, i + 1 - start);
                            }
                        }
                        return None;
                    },
                    Some(next) => {
                        val = next;
                    },
                }
            },
        }
        i += 1;
    }
    assert(body.subrange(0, v@.len() - start) =~= body);
    Some(val)
}

/// The digit character for `d`.
pub open spec fn digit_char(d: int) -> char {
    if d == 0 {
        '0'
    } else if d == 1 {
        '1'
    } else if d == 2 {
        '2'
    } else if d == 3 {
        '3'
    } else if d == 4 {
        '4'
    } else if d == 5 {
        '5'
    } else if d == 6 {
        '6'
    } else if d == 7 {
        '7'
    } else if d == 8 {
        '8'
    } else {
        '9'
    }
}

/// Decimal rendering of `n`, most significant digit first.
pub open spec fn dec_chars(n: int) -> Seq<char>
    decreases n,
{
    if n < 10 {
        seq![digit_char(n)]
    } else {
        dec_chars(n / 10).push(digit_char(n % 10))
    }
}

fn digit_to_char(d: usize) -> (c: char)
    requires
        d < 10,
    ensures
        c == digit_char(d as int),
{
    match d {
        0 => '0',
        1 => '1',
        2 => '2',
        3 => '3',
        4 => '4',
        5 => '5',
        6 => '6',
        7 => '7',
        8 => '8',
        _ => '9',
    }
}

/// Decimal rendering of `n`, as `usize::to_string` would give it.
pub fn usize_to_chars(n: usize) -> (v: Vec<char>)
    ensures
        v@ == dec_chars(n as int),
    decreases n,
{
    if n < 10 {
        let mut v: Vec<char> = Vec::new();
        v.push(digit_to_char(n));
        assert(v@ =~= dec_chars(n as int));
        v
    } else {
        let mut v = usize_to_chars(n / 10);
        v.push(digit_to_char(n % 10));
        v
    }
}

/// Decimal rendering of `n` as a `String`.
pub fn usize_to_string(n: usize) -> (s: String)
    ensures
        s@ == dec_chars(n as int),
{
    let v = usize_to_chars(n);
    chars_to_string(&v)
}

/// `s` with every occurrence of `pat` replaced by `to`, scanning left to
/// right without overlap, as `str::replace` does for a non-empty pattern.
pub open spec fn replace_spec(s: Seq<char>, pat: Seq<char>, to: Seq<char>) -> Seq<char>
    decreases s.len(),
{
    if pat.len() == 0 || s.len() < pat.len() {
        s
    } else if s.subrange(0, pat.len() as int) == pat {
        to + replace_spec(s.skip(pat.len() as int), pat, to)
    } else {
        seq![s[0]] + replace_spec(s.skip(1), pat, to)
    }
}

/// Replace every occurrence of `pat` in `v` by `to`.
pub fn replace_chars(v: &Vec<char>, pat: &str, to: &str) -> (r: Vec<char>)
    requires
        pat@.len() > 0,
    ensures
        r@ == replace_spec(v@, pat@, to@),
{
    let plen = pat.unicode_len();
    let to_chars = str_to_chars(to);
    let vlen = v.len();
    let mut r: Vec<char> = Vec::new();
    let mut i: usize = 0;
    assert(v@.skip(0) =~= v@);
    assert(r@ + replace_spec(v@, pat@, to@) =~= replace_spec(v@, pat@, to@));
    while i < vlen
        invariant
            i <= vlen,
            vlen == v@.len(),
            plen == pat@.len(),
            plen > 0,
            to_chars@ == to@,
            replace_spec(v@, pat@, to@) == r@ + replace_spec(v@.skip(i as int), pat@, to@),
        decreases vlen - i,
    {
        let ghost rest = v@.skip(i as int);
        let ghost r0 = r@;
        if starts_with_at(v, pat, i) {
            assert(rest.subrange(0, pat@.len() as int) =~= v@.subrange(
                i as int,
                i + pat@.len() as int,
            ));
            assert(replace_spec(rest, pat@, to@) == to@ + replace_spec(
                rest.skip(pat@.len() as int),
                pat@,
                to@,
            ));
            let mut k: usize = 0;
            while k < to_chars.len()
                invariant
                    k <= to_chars@.len(),
                    to_chars@ == to@,
                    r@ == r0 + to_chars@.subrange(0, k as int),
                decreases to_chars.len() - k,
            {
                r.push(to_chars[k]);
                assert(r@ =~= r0 + to_chars@.subrange(0, k + 1));
                k += 1;
            }
            assert(r@ == r0 + to@) by {
                assert(to_chars@.subrange(0, to_chars@.len() as int) =~= to@);
            }
            assert(rest.skip(pat@.len() as int) =~= v@.skip(i + pat@.len() as int));
            i += plen;
            assert(replace_spec(v@, pat@, to@) =~= r@ + replace_spec(
                v@.skip(i as int),
                pat@,
                to@,
            ));
        } else {
            proof {
                if rest.len() >= pat@.len() {
                    assert(rest.subrange(0, pat@.len() as int) != pat@) by {
                        if rest.subrange(0, pat@.len() as int) == pat@ {
                            assert(v@.subrange(i as int, i + pat@.len() as int) =~= rest.subrange(
                                0,
                                pat@.len() as int,
                            ));
                        }
                    }
                    assert(replace_spec(rest, pat@, to@) == seq![rest[0]] + replace_spec(
                        rest.skip(1),
                        pat@,
                        to@,
                    ));
                } else {
                    assert(replace_spec(rest, pat@, to@) == rest);
                    assert(replace_spec(rest.skip(1), pat@, to@) == rest.skip(1));
                    assert(rest =~= seq![rest[0]] + rest.skip(1));
                }
            }
            r.push(v[i]);
            assert(r@ =~= r0 + seq![rest[0]]);
            assert(rest.skip(1) =~= v@.skip(i + 1));
            i += 1;
            assert(replace_spec(v@, pat@, to@) =~= r@ + replace_spec(
                v@.skip(i as int),
                pat@,
                to@,
            ));
        }
    }
    assert(v@.skip(i as int) =~= Seq::<char>::empty());
    assert(replace_spec(v@, pat@, to@) =~= r@);
    r
}

} // verus!
