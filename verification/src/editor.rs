//! The line editor behind the search and command input modes: a character
//! buffer and a cursor, with single-character and word-wise movement,
//! deletion, insertion, and cursor placement from a click.

use vstd::prelude::*;

use crate::text::{
    char_is_whitespace, is_whitespace_char, next_non_ws, next_ws, subvec,
};

verus! {

/// Last position at or before `i` with no white space right before it:
/// walking left over a white-space run.
pub open spec fn back_over_ws(s: Seq<char>, i: int) -> int
    decreases i,
{
    if i > 0 && i <= s.len() && char_is_whitespace(s[i - 1]) {
        back_over_ws(s, i - 1)
    } else {
        i
    }
}

/// Walking left over a run of non-white-space.
pub open spec fn back_over_word(s: Seq<char>, i: int) -> int
    decreases i,
{
    if i > 0 && i <= s.len() && !char_is_whitespace(s[i - 1]) {
        back_over_word(s, i - 1)
    } else {
        i
    }
}

pub proof fn lemma_back_bounds(s: Seq<char>, i: int)
    requires
        0 <= i <= s.len(),
    ensures
        0 <= back_over_ws(s, i) <= i,
        0 <= back_over_word(s, i) <= i,
    decreases i,
{
    if i > 0 {
        lemma_back_bounds(s, i - 1);
    }
}

/// Move the cursor one position left, or to the start of the previous word:
/// over the white-space run before the cursor, then over the word before it.
pub fn move_left(chars: &Vec<char>, cursor: usize, word: bool) -> (r: usize)
    requires
        cursor <= chars@.len(),
    ensures
        word ==> r == back_over_word(chars@, back_over_ws(chars@, cursor as int)),
        !word ==> r == if cursor > 0 {
            cursor - 1
        } else {
            0
        },
        r <= cursor,
{
    if !word {
        if cursor > 0 {
            cursor - 1
        } else {
            0
        }
    } else {
        let mut c = cursor;
        while c > 0 && is_whitespace_char(chars[c - 1])
            invariant
                c <= cursor <= chars@.len(),
                back_over_ws(chars@, cursor as int) == back_over_ws(chars@, c as int),
            decreases c,
        {
            c -= 1;
        }
        let ghost w = c as int;
        while c > 0 && !is_whitespace_char(chars[c - 1])
            invariant
                c <= cursor <= chars@.len(),
                back_over_word(chars@, w) == back_over_word(chars@, c as int),
            decreases c,
        {
            c -= 1;
        }
        c
    }
}

/// Move the cursor one position right, or past the end of the current word:
/// over the word under the cursor, then over the white-space run after it.
pub fn move_right(chars: &Vec<char>, cursor: usize, word: bool) -> (r: usize)
    requires
        cursor <= chars@.len(),
    ensures
        word ==> r == next_non_ws(chars@, next_ws(chars@, cursor as int)),
        !word ==> r == if cursor < chars@.len() {
            cursor + 1
        } else {
            cursor as int
        },
        cursor <= r <= chars@.len(),
{
    if !word {
        if cursor < chars.len() {
            cursor + 1
        } else {
            cursor
        }
    } else {
        let mut c = cursor;
        while c < chars.len() && !is_whitespace_char(chars[c])
            invariant
                cursor <= c <= chars@.len(),
                next_ws(chars@, cursor as int) == next_ws(chars@, c as int),
            decreases chars.len() - c,
        {
            c += 1;
        }
        let ghost w = c as int;
        while c < chars.len() && is_whitespace_char(chars[c])
            invariant
                w <= c <= chars@.len(),
                cursor <= c,
                next_non_ws(chars@, w) == next_non_ws(chars@, c as int),
            decreases chars.len() - c,
        {
            c += 1;
        }
        c
    }
}

/// Delete the character left of the cursor, or — word-wise — the word left
/// of the cursor (the white-space run before the cursor is walked over but
/// kept). Returns the new cursor. Without a character to the left, nothing
/// changes.
pub fn backspace(chars: &mut Vec<char>, cursor: usize, word: bool) -> (r: usize)
    requires
        cursor <= old(chars)@.len(),
    ensures
        r <= final(chars)@.len(),
        !word ==> if cursor > 0 {
            final(chars)@ == old(chars)@.remove(cursor - 1) && r == cursor - 1
        } else {
            final(chars)@ == old(chars)@ && r == 0
        },
        word ==> if cursor > 0 {
            ({
                let w = back_over_ws(old(chars)@, cursor as int);
                let b = back_over_word(old(chars)@, w);
                final(chars)@ == old(chars)@.subrange(0, b) + old(chars)@.skip(w) && r == b
            })
        } else {
            final(chars)@ == old(chars)@ && r == 0
        },
{
    if cursor == 0 {
        return 0;
    }
    if !word {
        chars.remove(cursor - 1);
        cursor - 1
    } else {
        proof {
            lemma_back_bounds(chars@, cursor as int);
        }
        let mut c = cursor;
        while c > 0 && is_whitespace_char(chars[c - 1])
            invariant
                c <= cursor <= chars@.len(),
                back_over_ws(chars@, cursor as int) == back_over_ws(chars@, c as int),
            decreases c,
        {
            c -= 1;
        }
        let w = c;
        proof {
            lemma_back_bounds(chars@, w as int);
        }
        while c > 0 && !is_whitespace_char(chars[c - 1])
            invariant
                c <= w <= chars@.len(),
                back_over_word(chars@, w as int) == back_over_word(chars@, c as int),
            decreases c,
        {
            c -= 1;
        }
        let b = c;
        let head = subvec(chars, 0, b);
        let tail = subvec(chars, w, chars.len());
        let mut out = head;
        let mut tail = tail;
        out.append(&mut tail);
        proof {
            assert(old(chars)@.skip(w as int) =~= old(chars)@.subrange(
                w as int,
                old(chars)@.len() as int,
            ));
        }
        *chars = out;
        b
    }
}

/// Insert a character at the cursor; the cursor moves past it.
pub fn insert_char(chars: &mut Vec<char>, cursor: usize, c: char) -> (r: usize)
    requires
        cursor <= old(chars)@.len(),
        old(chars)@.len() < usize::MAX,
    ensures
        final(chars)@ == old(chars)@.insert(cursor as int, c),
        r == cursor + 1,
{
    chars.insert(cursor, c);
    cursor + 1
}

/// The cursor position a click at column `x` selects: clamped to the
/// buffer, with the one-column prompt before the text accounted for.
pub fn cursor_from_click(len: usize, x: usize) -> (r: usize)
    ensures
        r == if x > len {
            len as int
        } else if x <= 1 {
            0
        } else {
            x - 1
        },
        r <= len,
{
    if x > len {
        len
    } else if x <= 1 {
        0
    } else {
        x - 1
    }
}

} // verus!
