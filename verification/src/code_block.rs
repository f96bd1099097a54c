//! Code-block extraction.
//!
//! The interpreter command expects its input inside a fenced code block:
//! optional leading newlines, an opening fence of three backticks, an
//! optional all-lowercase language word ended by a newline, the code
//! itself, and a closing fence of three backticks ending the message.  The
//! code is everything between the fences, language line excluded.

use vstd::prelude::*;

verus! {

/// True if `c` is a lowercase ASCII letter.
pub open spec fn is_lower(c: char) -> bool {
    'a' <= c && c <= 'z'
}

/// The length of the run of newlines in `s` starting at `i`.
pub open spec fn newline_run(s: Seq<char>, i: int) -> int
    decreases s.len() - i,
{
    if 0 <= i < s.len() && s[i] == '\n' {
        1 + newline_run(s, i + 1)
    } else {
        0
    }
}

/// The length of the run of lowercase letters in `s` starting at `i`.
pub open spec fn lower_run(s: Seq<char>, i: int) -> int
    decreases s.len() - i,
{
    if 0 <= i < s.len() && is_lower(s[i]) {
        1 + lower_run(s, i + 1)
    } else {
        0
    }
}

/// True if a fence of three backticks stands in `s` at position `i`.
pub open spec fn fence_at(s: Seq<char>, i: int) -> bool {
    0 <= i && i + 3 <= s.len() && s[i] == '`' && s[i + 1] == '`' && s[i + 2] == '`'
}

/// Where the code begins in `s`: after the leading newlines, the opening
/// fence, and — if an all-lowercase word ended by a newline follows the
/// fence — that language line.
pub open spec fn body_start(s: Seq<char>) -> int {
    let j = newline_run(s, 0) + 3;
    let m = lower_run(s, j);
    if j + m < s.len() && s[j + m] == '\n' {
        j + m + 1
    } else {
        j
    }
}

/// True if `s` is a properly fenced code block: leading newlines, an
/// opening fence, an optional language line, code, and a closing fence
/// ending the string.
pub open spec fn code_block_match(s: Seq<char>) -> bool {
    &&& fence_at(s, newline_run(s, 0))
    &&& body_start(s) <= s.len() - 3
    &&& fence_at(s, s.len() - 3)
}

/// The code between the fences, language line excluded; meaningful only
/// under [`code_block_match`].
pub open spec fn code_block_content(s: Seq<char>) -> Seq<char> {
    s.subrange(body_start(s), s.len() - 3)
}

/// True if `s` contains a backtick anywhere.  Extracted code containing
/// backticks is rejected before interpretation, since echoing it back
/// would break the output's own code-block formatting.
pub open spec fn has_backtick(s: Seq<char>) -> bool {
    exists|i: int| 0 <= i < s.len() && s[i] == '`'
}

/// Reports whether the extracted code still contains a backtick.
pub fn contains_backtick(code: &str) -> (r: bool)
    ensures
        r == has_backtick(code@),
{
    let len = code.unicode_len();
    let mut i: usize = 0;
    while i < len
        invariant
            len == code@.len(),
            i <= len,
            forall|j: int| 0 <= j < i ==> code@[j] != '`',
        decreases len - i,
    {
        if code.get_char(i) == '`' {
            return true;
        }
        i += 1;
    }
    false
}

/// Extracts the code from a fenced code block, or reports that the input
/// is not one.
pub fn extract_input(input: &str) -> (r: Result<String, String>)
    ensures
        r is Ok <==> code_block_match(input@),
        r matches Ok(content) ==> content@ == code_block_content(input@),
{
    let len = input.unicode_len();
    let ghost s = input@;

    // Leading newlines.
    let mut i: usize = 0;
    while i < len && input.get_char(i) == '\n'
        invariant
            s == input@,
            len == s.len(),
            0 <= i <= len,
            newline_run(s, 0) == i + newline_run(s, i as int),
        decreases len - i,
    {
        i += 1;
    }
    proof {
        assert(newline_run(s, i as int) == 0);
        assert(newline_run(s, 0) == i as int);
    }

    // Opening fence.
    if len < 3 || i > len - 3 || input.get_char(i) != '`' || input.get_char(i + 1) != '`'
        || input.get_char(i + 2) != '`' {
        proof {
            assert(!fence_at(s, i as int));
        }
        return Err(
            "Your supplied code isn't properly put into a code block. Be sure to surround it with triple backticks!".to_owned(),
        );
    }
    let j = i + 3;

    // Optional language line: a lowercase run ended by a newline.
    let mut k = j;
    while k < len && input.get_char(k) >= 'a' && input.get_char(k) <= 'z'
        invariant
            s == input@,
            len == s.len(),
            j <= k <= len,
            lower_run(s, j as int) == (k - j) + lower_run(s, k as int),
        decreases len - k,
    {
        k += 1;
    }
    proof {
        assert(lower_run(s, k as int) == 0);
        assert(lower_run(s, j as int) == k - j);
    }
    let body: usize = if k < len && input.get_char(k) == '\n' {
        k + 1
    } else {
        j
    };
    proof {
        assert(body as int == body_start(s));
    }

    // Closing fence ending the string, after the code's start.
    if len < 3 || body > len - 3 {
        return Err(
            "Your supplied code isn't properly put into a code block. Be sure to surround it with triple backticks!".to_owned(),
        );
    }
    if input.get_char(len - 3) != '`' || input.get_char(len - 2) != '`' || input.get_char(len - 1)
        != '`' {
        proof {
            assert(!fence_at(s, s.len() - 3));
        }
        return Err(
            "Your supplied code isn't properly put into a code block. Be sure to surround it with triple backticks!".to_owned(),
        );
    }

    let content = input.substring_char(body, len - 3);
    proof {
        assert(content@ == code_block_content(s));
    }
    Ok(content.to_owned())
}

} // verus!
