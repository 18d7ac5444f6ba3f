//! The incremental search engine: a smart-case regular-expression pattern
//! and scans over an indexed line source that may still be loading.

use vstd::prelude::*;

use crate::errors::{Error, ErrorV};
use crate::text::str_to_chars;

verus! {

/// Whether the pattern text compiles as a regular expression under the
/// given case mode. The name stands for what `regex::RegexBuilder::build`
/// accepts; it depends on the pattern and the mode alone.
pub uninterp spec fn regex_valid(pattern: Seq<char>, case_insensitive: bool) -> bool;

/// Whether the pattern, under the given case mode, matches somewhere in the
/// text. The name stands for what `regex::Regex::is_match` returns; it
/// depends on the three arguments alone.
pub uninterp spec fn regex_matches(pattern: Seq<char>, case_insensitive: bool, text: Seq<char>) -> bool;

/// Whether `char::is_uppercase` holds of the character. The result depends
/// on the character alone.
pub uninterp spec fn char_is_uppercase(c: char) -> bool;

/// Relies on `char::is_uppercase`: the Unicode uppercase property.
#[verifier::external_body]
fn is_uppercase_char(c: char) -> (r: bool)
    ensures
        r == char_is_uppercase(c),
{
    c.is_uppercase()
}

#[verifier::external_type_specification]
#[verifier::external_body]
pub struct ExRegex(regex::Regex);

/// Relies on `regex::RegexBuilder::new`, `RegexBuilder::case_insensitive`
/// and `RegexBuilder::build`: compiling the pattern under the chosen case
/// mode succeeds for exactly the patterns the crate accepts.
#[verifier::external_body]
fn compile_regex(pattern: &str, case_insensitive: bool) -> (r: Option<regex::Regex>)
    ensures
        r is Some <==> regex_valid(pattern@, case_insensitive),
{
    regex::RegexBuilder::new(pattern).case_insensitive(case_insensitive).build().ok()
}

/// A compiled search pattern, remembering the text and case mode it was
/// compiled from. Values exist only through [`SearchPattern::compile`], so
/// the compiled expression always belongs to the remembered text and mode.
pub struct SearchPattern {
    re: regex::Regex,
    pattern: String,
    case_insensitive: bool,
}

impl SearchPattern {
    /// The pattern text this value was compiled from.
    pub closed spec fn pattern_view(self) -> Seq<char> {
        self.pattern@
    }

    /// The case mode this value was compiled with.
    pub closed spec fn ci(self) -> bool {
        self.case_insensitive
    }

    /// Compile a pattern; `None` exactly when the pattern is invalid.
    pub fn compile(pattern: String, case_insensitive: bool) -> (r: Option<SearchPattern>)
        ensures
            r is Some <==> regex_valid(pattern@, case_insensitive),
            match r {
                Some(p) => p.pattern_view() == pattern@ && p.ci() == case_insensitive,
                None => true,
            },
    {
        match compile_regex(pattern.as_str(), case_insensitive) {
            Some(re) => Some(SearchPattern { re, pattern, case_insensitive }),
            None => None,
        }
    }

    /// Relies on `regex::Regex::is_match`: whether the pattern matches
    /// somewhere in the line. The expression was compiled from the
    /// remembered pattern text and case mode, so the result is what
    /// `regex_matches` names for them.
    #[verifier::external_body]
    pub fn is_match(&self, line: &str) -> (r: bool)
        ensures
            r == regex_matches(self.pattern_view(), self.ci(), line@),
    {
        self.re.is_match(line)
    }
}

/// Some character of `s` is uppercase.
pub open spec fn has_uppercase(s: Seq<char>) -> bool {
    exists|i: int| 0 <= i < s.len() && char_is_uppercase(#[trigger] s[i])
}

/// Whether a search for `s` is case-sensitive: under smart case, exactly
/// when the pattern holds an uppercase character; with smart case off the
/// search is always case-insensitive.
pub open spec fn search_case_sensitive(s: Seq<char>, smart_case: bool) -> bool {
    if smart_case {
        has_uppercase(s)
    } else {
        false
    }
}

/// Whether some character of `v` is uppercase.
pub fn contains_uppercase(v: &Vec<char>) -> (r: bool)
    ensures
        r == has_uppercase(v@),
{
    let mut i: usize = 0;
    while i < v.len()
        invariant
            i <= v@.len(),
            forall|j: int| 0 <= j < i ==> !char_is_uppercase(#[trigger] v@[j]),
        decreases v.len() - i,
    {
        if is_uppercase_char(v[i]) {
            return true;
        }
        i += 1;
    }
    false
}

/// Compile the search pattern of a view's current search string: smart case
/// decides sensitivity, and an invalid pattern is the user's error.
pub fn build_search(search_string: &String, smart_case: bool) -> (r: Result<SearchPattern, Error>)
    ensures
        match r {
            Ok(p) => regex_valid(search_string@, !search_case_sensitive(search_string@, smart_case))
                && p.pattern_view() == search_string@ && p.ci() == !search_case_sensitive(
                search_string@,
                smart_case,
            ),
            Err(e) => !regex_valid(
                search_string@,
                !search_case_sensitive(search_string@, smart_case),
            ) && e@ == ErrorV::Global("invalid regex"@),
        },
{
    let chars = str_to_chars(search_string.as_str());
    let is_case_sensitive: bool = if smart_case {
        contains_uppercase(&chars)
    } else {
        false
    };
    match SearchPattern::compile(search_string.clone(), !is_case_sensitive) {
        Some(p) => Ok(p),
        None => Err(Error::Global(String::from_str("invalid regex"))),
    }
}

/// Whether the pattern matches line `i` of the source.
pub open spec fn matches_line(p: SearchPattern, lines: Seq<Seq<char>>, i: int) -> bool {
    regex_matches(p.pattern_view(), p.ci(), lines[i])
}

/// Where a search scan ended.
#[derive(Debug, Clone, Copy, PartialEq)]
pub enum SearchOutcome {
    /// A matching line was selected.
    Found(usize),
    /// The source ran out while still loading; resume from this index.
    Pending(usize),
    /// The source ran out and is complete: no further match.
    Exhausted,
}

/// Scan forward from `start` (inclusive) for the first matching line, as a
/// pending search resumes: past the loaded content the search stays pending
/// while the source is loading, and is exhausted once it is complete.
pub fn continue_search_scan(
    pat: &SearchPattern,
    lines: &Vec<String>,
    loaded: bool,
    start: usize,
) -> (r: SearchOutcome)
    ensures
        ({
            let lv = lines@.map_values(|s: String| s@);
            match r {
                SearchOutcome::Found(i) => start <= i < lv.len() && matches_line(*pat, lv, i as int)
                    && forall|j: int| start <= j < i ==> !matches_line(*pat, lv, j),
                SearchOutcome::Pending(i) => !loaded && i >= lv.len() && i >= start && (i == start
                    || i == lv.len()) && forall|j: int|
                    start <= j < lv.len() ==> !matches_line(*pat, lv, j),
                SearchOutcome::Exhausted => loaded && forall|j: int|
                    start <= j < lv.len() ==> !matches_line(*pat, lv, j),
            }
        }),
{
    let ghost lv = lines@.map_values(|s: String| s@);
    if start >= lines.len() {
        if !loaded {
            return SearchOutcome::Pending(start);
        } else {
            return SearchOutcome::Exhausted;
        }
    }
    let mut idx = start;
    while idx < lines.len()
        invariant
            lv == lines@.map_values(|s: String| s@),
            start <= idx <= lv.len(),
            forall|j: int| start <= j < idx ==> !matches_line(*pat, lv, j),
        decreases lv.len() - idx,
    {
        assert(lv[idx as int] == lines@[idx as int]@);
        if pat.is_match(lines[idx].as_str()) {
            return SearchOutcome::Found(idx);
        }
        idx += 1;
    }
    if !loaded {
        SearchOutcome::Pending(idx)
    } else {
        SearchOutcome::Exhausted
    }
}

/// Step from the current selection and scan for the next match: downward
/// when `reverse` holds, upward otherwise. An upward scan that runs off
/// still-loading content goes pending; a downward scan never does.
pub fn search_step(
    pat: &SearchPattern,
    lines: &Vec<String>,
    loaded: bool,
    current: usize,
    reverse: bool,
) -> (r: SearchOutcome)
    requires
        current < usize::MAX,
    ensures
        ({
            let lv = lines@.map_values(|s: String| s@);
            match r {
                SearchOutcome::Found(i) => if reverse {
                    i < current && i < lv.len() && matches_line(*pat, lv, i as int) && forall|
                        j: int,
                    | i < j < current && j < lv.len() ==> !matches_line(*pat, lv, j)
                } else {
                    current < i < lv.len() && matches_line(*pat, lv, i as int) && forall|j: int|
                        current < j < i ==> !matches_line(*pat, lv, j)
                },
                SearchOutcome::Pending(i) => !reverse && !loaded && i > current && i == (
                if current < lv.len() {
                    lv.len() as int
                } else {
                    current + 1
                }) && forall|j: int| current < j < lv.len() ==> !matches_line(*pat, lv, j),
                SearchOutcome::Exhausted => if reverse {
                    forall|j: int| 0 <= j < current && j < lv.len() ==> !matches_line(*pat, lv, j)
                } else {
                    loaded && forall|j: int|
                        current < j < lv.len() ==> !matches_line(*pat, lv, j)
                },
            }
        }),
{
    let ghost lv = lines@.map_values(|s: String| s@);
    if reverse {
        let mut idx = current;
        loop
            invariant
                reverse,
                lv == lines@.map_values(|s: String| s@),
                idx <= current,
                forall|j: int| idx <= j < current && j < lv.len() ==> !matches_line(*pat, lv, j),
            decreases idx,
        {
            if idx == 0 {
                return SearchOutcome::Exhausted;
            }
            idx -= 1;
            if idx < lines.len() {
                assert(lv[idx as int] == lines@[idx as int]@);
                if pat.is_match(lines[idx].as_str()) {
                    return SearchOutcome::Found(idx);
                }
            }
        }
    } else {
        if current >= lines.len() {
            if !loaded {
                return SearchOutcome::Pending(current + 1);
            } else {
                return SearchOutcome::Exhausted;
            }
        }
        let mut idx = current + 1;
        while idx < lines.len()
            invariant
                !reverse,
                lv == lines@.map_values(|s: String| s@),
                current < idx <= lv.len(),
                forall|j: int| current < j < idx ==> !matches_line(*pat, lv, j),
            decreases lv.len() - idx,
        {
            assert(lv[idx as int] == lines@[idx as int]@);
            if pat.is_match(lines[idx].as_str()) {
                return SearchOutcome::Found(idx);
            }
            idx += 1;
        }
        if !loaded {
            SearchOutcome::Pending(idx)
        } else {
            SearchOutcome::Exhausted
        }
    }
}

/// The reverse-direction law: the scan direction of a search is the
/// requested direction exclusive-or the search's own stored `reverse` flag:
/// a backward-mode search asked for "previous" scans upward (indexes only
/// increase), and asked for "next" scans downward.
pub open spec fn effective_reverse(requested_previous: bool, stored_reverse: bool) -> bool {
    requested_previous != stored_reverse
}

/// The scan a `next`/`previous` request makes: the direction is the request
/// combined with the stored flag under [`effective_reverse`].
pub fn search_result(
    pat: &SearchPattern,
    lines: &Vec<String>,
    loaded: bool,
    current: usize,
    stored_reverse: bool,
    requested_previous: bool,
) -> (r: SearchOutcome)
    requires
        current < usize::MAX,
    ensures
        ({
            let lv = lines@.map_values(|s: String| s@);
            let rev = effective_reverse(requested_previous, stored_reverse);
            match r {
                SearchOutcome::Found(i) => if rev {
                    i < current && i < lv.len() && matches_line(*pat, lv, i as int) && forall|
                        j: int,
                    | i < j < current && j < lv.len() ==> !matches_line(*pat, lv, j)
                } else {
                    current < i < lv.len() && matches_line(*pat, lv, i as int) && forall|j: int|
                        current < j < i ==> !matches_line(*pat, lv, j)
                },
                SearchOutcome::Pending(i) => !rev && !loaded && i > current && i == (
                if current < lv.len() {
                    lv.len() as int
                } else {
                    current + 1
                }) && forall|j: int| current < j < lv.len() ==> !matches_line(*pat, lv, j),
                SearchOutcome::Exhausted => if rev {
                    forall|j: int| 0 <= j < current && j < lv.len() ==> !matches_line(*pat, lv, j)
                } else {
                    loaded && forall|j: int|
                        current < j < lv.len() ==> !matches_line(*pat, lv, j)
                },
            }
        }),
{
    let rev = requested_previous != stored_reverse;
    search_step(pat, lines, loaded, current, rev)
}

/// A search constructed with `reverse = true` and asked to go "previous"
/// moves forward through the source: any match it finds lies at a strictly
/// larger index than the current selection.
pub proof fn lemma_reverse_xor(requested_previous: bool, stored_reverse: bool)
    ensures
        stored_reverse && requested_previous ==> !effective_reverse(
            requested_previous,
            stored_reverse,
        ),
        stored_reverse && !requested_previous ==> effective_reverse(
            requested_previous,
            stored_reverse,
        ),
{
}

} // verus!

use vstd::string::StringExecFns;
