//! Shell-command templates: placeholder substitution and the wrapper that
//! keeps a failing command's output on screen.

use vstd::prelude::*;
use vstd::string::StringExecFns;

use crate::text::{chars_to_string, dec_chars, replace_chars, replace_spec, str_to_chars, usize_to_chars};

verus! {

/// The substituted command: each placeholder whose value the context
/// supplies is replaced, in this fixed order; a placeholder without a value
/// stays verbatim.
pub open spec fn substitute_spec(
    template: Seq<char>,
    file: Option<Seq<char>>,
    rev: Option<Seq<char>>,
    line: Option<int>,
    text: Option<Seq<char>>,
    clip: Seq<char>,
    git: Seq<char>,
) -> Seq<char> {
    let t1 = match file {
        Some(f) => replace_spec(template, "%(file)"@, f),
        None => template,
    };
    let t2 = match rev {
        Some(r) => replace_spec(t1, "%(rev)"@, r),
        None => t1,
    };
    let t3 = match line {
        Some(n) => replace_spec(t2, "%(line)"@, dec_chars(n)),
        None => t2,
    };
    let t4 = match text {
        Some(t) => replace_spec(t3, "%(text)"@, t),
        None => t3,
    };
    let t5 = replace_spec(t4, "%(clip)"@, clip);
    replace_spec(t5, "%(git)"@, git)
}

/// Substitute the context into a command template.
pub fn substitute_command(
    template: &String,
    file: &Option<String>,
    rev: &Option<String>,
    line: &Option<usize>,
    text: &Option<String>,
    clip: &String,
    git: &String,
) -> (r: String)
    ensures
        r@ == substitute_spec(
            template@,
            match file {
                Some(f) => Some(f@),
                None => None,
            },
            match rev {
                Some(v) => Some(v@),
                None => None,
            },
            match line {
                Some(n) => Some(*n as int),
                None => None,
            },
            match text {
                Some(t) => Some(t@),
                None => None,
            },
            clip@,
            git@,
        ),
{
    proof {
        reveal_strlit("%(file)");
        reveal_strlit("%(rev)");
        reveal_strlit("%(line)");
        reveal_strlit("%(text)");
        reveal_strlit("%(clip)");
        reveal_strlit("%(git)");
    }
    let mut v = str_to_chars(template.as_str());
    if let Some(f) = file {
        let fv = chars_to_string(&str_to_chars(f.as_str()));
        v = replace_chars(&v, "%(file)", fv.as_str());
    }
    if let Some(rv) = rev {
        v = replace_chars(&v, "%(rev)", rv.as_str());
    }
    if let Some(n) = line {
        let digits = usize_to_chars(*n);
        let ds = chars_to_string(&digits);
        v = replace_chars(&v, "%(line)", ds.as_str());
    }
    if let Some(t) = text {
        v = replace_chars(&v, "%(text)", t.as_str());
    }
    v = replace_chars(&v, "%(clip)", clip.as_str());
    v = replace_chars(&v, "%(git)", git.as_str());
    chars_to_string(&v)
}

/// Wrap a command for the platform shell so a non-zero exit pauses for an
/// acknowledgement instead of silently flashing the terminal.
pub fn wrap_shell_command(command: &String) -> (r: String)
    ensures
        r@ == command@ + " || (echo \"Command failed. Press enter to continue...\"; read)"@,
{
    let mut r = command.clone();
    r.append(" || (echo \"Command failed. Press enter to continue...\"; read)");
    r
}

} // verus!
