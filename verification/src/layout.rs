//! Fitting lists and text onto a screen of limited size.
use vstd::prelude::*;
use crate::strings::{chars_of, string_from_chars};
use crate::text::{is_blank, is_blank_chars};

verus! {

/// The first row to show so that row `selected` of a list of `len` rows is
/// visible in a window of `height` rows, starting from the previous `scroll`.
pub open spec fn scroll_for(selected: int, scroll: int, height: int, len: int) -> int {
    if len == 0 || height == 0 {
        0
    } else {
        let s0 = if scroll < len - 1 { scroll } else { len - 1 };
        let s1 = if selected < s0 {
            selected
        } else if selected >= s0 + height {
            selected + 1 - height
        } else {
            s0
        };
        if s1 + height > len {
            if len > height { len - height } else { 0 }
        } else {
            s1
        }
    }
}

/// The first row to show of a list, as the screen scrolls to follow the selection.
pub fn adjust_scroll(selected: usize, scroll: usize, height: usize, len: usize) -> (r: usize)
    ensures
        r == scroll_for(selected as int, scroll as int, height as int, len as int),
        height > 0 && selected < len ==> r <= selected < r + height,
        height > 0 && height <= len ==> r + height <= len,
        height >= len ==> r == 0,
{
    if len == 0 || height == 0 {
        return 0;
    }
    let mut new_scroll = if scroll < len - 1 { scroll } else { len - 1 };
    if selected < new_scroll {
        new_scroll = selected;
    } else if selected - new_scroll >= height {
        new_scroll = selected - height + 1;
    }
    if new_scroll > len || len - new_scroll < height {
        new_scroll = if len > height { len - height } else { 0 };
    }
    new_scroll
}

/// An index kept inside a list of `len` rows: the last row where it is past
/// the end, 0 for an empty list.
pub open spec fn clamped(index: int, len: int) -> int {
    if len == 0 {
        0
    } else if index < len - 1 {
        index
    } else {
        len - 1
    }
}

/// Keeps an index inside a list of `len` rows.
pub fn clamp_index(index: usize, len: usize) -> (r: usize)
    ensures
        r == clamped(index as int, len as int),
        len > 0 ==> r < len,
        len == 0 ==> r == 0,
{
    if len == 0 {
        0
    } else if index < len - 1 {
        index
    } else {
        len - 1
    }
}

/// Text cut to at most `max` characters; where it is cut and there is room,
/// its last three characters become `...`.
pub open spec fn truncated(s: Seq<char>, max: nat) -> Seq<char> {
    if max == 0 {
        Seq::empty()
    } else if s.len() <= max {
        s
    } else if max <= 3 {
        s.take(max as int)
    } else {
        s.take(max - 3) + "..."@
    }
}

/// Cuts text to fit a line of `max` columns.
pub fn truncate_text(value: &str, max: usize) -> (r: String)
    ensures
        r@ == truncated(value@, max as nat),
        r@.len() <= max,
{
    if max == 0 {
        return String::new();
    }
    let chars = chars_of(value);
    let count = chars.len();
    if count <= max {
        return string_from_chars(&chars);
    }
    if max <= 3 {
        let mut out: Vec<char> = Vec::new();
        for i in 0..max
            invariant
                max < count,
                count == chars@.len(),
                out@ == chars@.take(i as int),
        {
            out.push(chars[i]);
            assert(out@ =~= chars@.take(i + 1));
        }
        return string_from_chars(&out);
    }
    let mut out: Vec<char> = Vec::new();
    for i in 0..max - 3
        invariant
            3 < max < count,
            count == chars@.len(),
            out@ == chars@.take(i as int),
    {
        out.push(chars[i]);
        assert(out@ =~= chars@.take(i + 1));
    }
    let mut result = string_from_chars(&out);
    result.append("...");
    proof {
        reveal_strlit("...");
    }
    result
}

/// The text itself, or `-` where it is blank.
pub open spec fn or_dash(s: Seq<char>) -> Seq<char> {
    if is_blank(s) {
        "-"@
    } else {
        s
    }
}

/// Shows blank text as `-`.
pub fn blank_fallback(value: &str) -> (r: &str)
    ensures
        r@ == or_dash(value@),
{
    if is_blank_chars(&chars_of(value)) {
        "-"
    } else {
        value
    }
}

} // verus!
