//! Structural well-formedness of type and constraint expressions.
//!
//! The engine treats the value of a declaration (the capability type) and of
//! a bound (the constraint) as opaque text for a downstream compiler. It only
//! checks that the text is structurally well-formed: non-empty, with angle
//! brackets, parentheses and square brackets properly nested, where a `>`
//! immediately after a `-` is read as part of an arrow and not as a closing
//! bracket. A value that fails this check is a malformed expression.

use vstd::prelude::*;

verus! {

/// Whether `c` opens a bracket pair.
pub open spec fn is_open_bracket(c: char) -> bool {
    c == '<' || c == '(' || c == '['
}

/// Whether `c` closes a bracket pair.
pub open spec fn is_close_bracket(c: char) -> bool {
    c == '>' || c == ')' || c == ']'
}

/// The closing bracket that matches the opening bracket `c`.
pub open spec fn matching_close(c: char) -> char {
    if c == '<' {
        '>'
    } else if c == '(' {
        ')'
    } else {
        ']'
    }
}

/// Whether position `i` of `s` is the head of an arrow (`->`), whose `>` is
/// not a closing bracket.
pub open spec fn is_arrow_head(s: Seq<char>, i: int) -> bool {
    s[i] == '>' && i > 0 && s[i - 1] == '-'
}

/// Whether the rest of `s` from position `i` on closes exactly the brackets
/// in `pending` (innermost last) and leaves nothing open.
pub open spec fn balanced_from(s: Seq<char>, i: int, pending: Seq<char>) -> bool
    decreases s.len() - i,
    when 0 <= i <= s.len()
{
    if i >= s.len() {
        pending.len() == 0
    } else {
        let c = s[i];
        if is_close_bracket(c) && is_arrow_head(s, i) {
            balanced_from(s, i + 1, pending)
        } else if is_open_bracket(c) {
            balanced_from(s, i + 1, pending.push(matching_close(c)))
        } else if is_close_bracket(c) {
            pending.len() > 0 && pending.last() == c && balanced_from(s, i + 1, pending.drop_last())
        } else {
            balanced_from(s, i + 1, pending)
        }
    }
}

/// Whether `s` is a structurally well-formed type or constraint expression:
/// non-empty and bracket-balanced.
pub open spec fn spec_type_expr_wf(s: Seq<char>) -> bool {
    s.len() > 0 && balanced_from(s, 0, Seq::empty())
}

/// Checks that `s` is a structurally well-formed type or constraint
/// expression.
pub fn type_expr_wf(s: &str) -> (r: bool)
    ensures
        r == spec_type_expr_wf(s@),
{
    let n: usize = s.unicode_len();
    if n == 0 {
        return false;
    }
    let mut pending: Vec<char> = Vec::new();
    let mut prev: char = ' ';
    let mut i: usize = 0;
    while i < n
        invariant
            0 <= i <= n,
            n == s@.len(),
            i > 0 ==> prev == s@[i - 1],
            balanced_from(s@, 0, Seq::empty()) == balanced_from(s@, i as int, pending@),
        decreases n - i,
    {
        let c = s.get_char(i);
        let arrow = c == '>' && i > 0 && prev == '-';
        if (c == '>' || c == ')' || c == ']') && !arrow {
            match pending.pop() {
                Option::Some(expected) => {
                    if expected != c {
                        return false;
                    }
                },
                Option::None => {
                    return false;
                },
            }
        } else if c == '<' || c == '(' || c == '[' {
            let close: char = if c == '<' {
                '>'
            } else if c == '(' {
                ')'
            } else {
                ']'
            };
            pending.push(close);
        }
        prev = c;
        i += 1;
    }
    pending.len() == 0
}

} // verus!
