//! Width-aware text layout. Widths are measured on the visual length of a
//! string: its length once every color escape sequence (an escape marker,
//! `[`, a run of digits and semicolons, `m`) has been stripped.

use vstd::prelude::*;
use crate::numtext::is_dec_digit;

verus! {

/// Whether `c` may stand in the body of a color escape sequence.
pub open spec fn is_sgr_body(c: char) -> bool {
    c == ';' || is_dec_digit(c)
}

/// First position from `i` on that ends a run of escape-body characters:
/// the position of the first character that is no digit or semicolon, or
/// the length of `s` when the run reaches its end.
pub open spec fn body_end(s: Seq<char>, i: int) -> int
    decreases s.len() - i,
{
    if i < 0 || i >= s.len() {
        s.len() as int
    } else if is_sgr_body(s[i]) {
        body_end(s, i + 1)
    } else {
        i
    }
}

proof fn lemma_body_end(s: Seq<char>, i: int, k: int)
    requires
        0 <= i <= k <= s.len(),
        forall|j: int| i <= j < k ==> is_sgr_body(#[trigger] s[j]),
        k < s.len() ==> !is_sgr_body(s[k]),
    ensures
        body_end(s, i) == k,
    decreases k - i,
{
    if i < s.len() && is_sgr_body(s[i]) {
        lemma_body_end(s, i + 1, k);
    }
}

proof fn lemma_body_end_bounds(s: Seq<char>, i: int)
    requires
        0 <= i <= s.len(),
    ensures
        i <= body_end(s, i) <= s.len(),
    decreases s.len() - i,
{
    if i < s.len() && is_sgr_body(s[i]) {
        lemma_body_end_bounds(s, i + 1);
    }
}

/// Whether a color escape sequence stands at the head of `s`.
pub open spec fn is_escape_start(s: Seq<char>) -> bool {
    &&& s.len() >= 2
    &&& s[0] == '\x1b'
    &&& s[1] == '['
    &&& body_end(s, 2) < s.len()
    &&& s[body_end(s, 2)] == 'm'
}

/// Length of the color escape sequence at the head of `s`.
pub open spec fn escape_len(s: Seq<char>) -> int {
    body_end(s, 2) + 1
}

/// `s` with every color escape sequence stripped out, scanning left to
/// right and removing each sequence as soon as one starts.
pub open spec fn strip_colors(s: Seq<char>) -> Seq<char>
    decreases s.len(),
    via strip_colors_decreases
{
    if s.len() == 0 {
        Seq::empty()
    } else if is_escape_start(s) {
        strip_colors(s.skip(escape_len(s)))
    } else {
        seq![s[0]] + strip_colors(s.skip(1))
    }
}

#[via_fn]
proof fn strip_colors_decreases(s: Seq<char>) {
    if s.len() != 0 && is_escape_start(s) {
        lemma_body_end_bounds(s, 2);
    }
}

/// The visual length of `s`: its character count once every color escape
/// sequence is stripped.
pub open spec fn visual_len_of(s: Seq<char>) -> nat {
    strip_colors(s).len()
}

/// A run of `n` spaces.
pub open spec fn spaces(n: nat) -> Seq<char>
    decreases n,
{
    if n == 0 {
        Seq::empty()
    } else {
        spaces((n - 1) as nat) + seq![' ']
    }
}

/// The padding laid on each side by centering: half the leftover width,
/// rounded down, and nothing when the text already overflows the width.
pub open spec fn center_padding(width: nat, len: nat) -> nat {
    if width >= len {
        ((width - len) / 2) as nat
    } else {
        0
    }
}

/// The fill laid between two stretched pieces: the leftover width, and
/// nothing when the pieces already overflow it.
pub open spec fn stretch_fill(width: nat, len1: nat, len2: nat) -> nat {
    if width >= len1 + len2 {
        ((width - len1) - len2) as nat
    } else {
        0
    }
}

/// The one-sided padding laid by left or right alignment.
pub open spec fn side_padding(width: nat, len: nat) -> nat {
    if width >= len {
        (width - len) as nat
    } else {
        0
    }
}

/// `text` centered in `width` columns.
pub open spec fn centered_of(width: nat, text: Seq<char>) -> Seq<char> {
    spaces(center_padding(width, visual_len_of(text))) + text + spaces(
        center_padding(width, visual_len_of(text)),
    )
}

/// `left`, fill spaces, then `right`, stretched over `width` columns.
pub open spec fn stretched_of(width: nat, left: Seq<char>, right: Seq<char>) -> Seq<char> {
    left + spaces(stretch_fill(width, visual_len_of(left), visual_len_of(right))) + right
}

/// `text` pushed to the right edge of `width` columns.
pub open spec fn right_of(width: nat, text: Seq<char>) -> Seq<char> {
    spaces(side_padding(width, visual_len_of(text))) + text
}

/// `text` laid at the left edge of `width` columns.
pub open spec fn left_of(width: nat, text: Seq<char>) -> Seq<char> {
    text + spaces(side_padding(width, visual_len_of(text)))
}

/// Whether `c` may stand in the body of a color escape sequence.
fn sgr_body(c: char) -> (r: bool)
    ensures
        r == is_sgr_body(c),
{
    let u = c as u32;
    c == ';' || (48 <= u && u <= 57)
}

pub struct Format {}

impl Format {
    /// The visual length of `text`: its character count once every color
    /// escape sequence is stripped.
    pub fn visual_len(text: &str) -> (r: usize)
        ensures
            r == visual_len_of(text@),
    {
        let len = text.unicode_len();
        let mut i: usize = 0;
        let mut count: usize = 0;
        proof {
            assert(text@.skip(0) =~= text@);
        }
        while i < len
            invariant
                len == text@.len(),
                i <= len,
                count <= i,
                visual_len_of(text@) == count + visual_len_of(text@.skip(i as int)),
            decreases len - i,
        {
            let ghost t = text@.skip(i as int);
            if text.get_char(i) == '\x1b' && i + 1 < len && text.get_char(i + 1) == '[' {
                let mut j: usize = i + 2;
                while j < len && sgr_body(text.get_char(j))
                    invariant
                        len == text@.len(),
                        i + 2 <= j <= len,
                        forall|k: int| i + 2 <= k < j ==> is_sgr_body(#[trigger] text@[k]),
                    decreases len - j,
                {
                    j += 1;
                }
                proof {
                    assert forall|m: int| 2 <= m < j - i implies is_sgr_body(#[trigger] t[m]) by {
                        assert(t[m] == text@[i + m]);
                    }
                    lemma_body_end(t, 2, j - i);
                }
                if j < len && text.get_char(j) == 'm' {
                    proof {
                        assert(t[j - i] == text@[j as int]);
                        assert(is_escape_start(t));
                        assert(t.skip(j + 1 - i) =~= text@.skip(j + 1));
                    }
                    i = j + 1;
                } else {
                    proof {
                        if j < len {
                            assert(t[j - i] == text@[j as int]);
                        }
                        assert(!is_escape_start(t));
                        assert(t.skip(1) =~= text@.skip(i + 1));
                    }
                    count += 1;
                    i += 1;
                }
            } else {
                proof {
                    if text@.len() > i {
                        assert(t[0] == text@[i as int]);
                    }
                    if t.len() >= 2 {
                        assert(t[1] == text@[i + 1]);
                    }
                    assert(!is_escape_start(t));
                    assert(t.skip(1) =~= text@.skip(i + 1));
                }
                count += 1;
                i += 1;
            }
        }
        proof {
            assert(text@.skip(len as int) =~= Seq::<char>::empty());
        }
        count
    }

    /// Appends `padding` spaces to `text`.
    pub fn pad(text: &mut String, padding: usize)
        ensures
            final(text)@ == old(text)@ + spaces(padding as nat),
    {
        let mut k: usize = 0;
        while k < padding
            invariant
                k <= padding,
                text@ == old(text)@ + spaces(k as nat),
            decreases padding - k,
        {
            text.append(" ");
            proof {
                reveal_strlit(" ");
                assert(spaces((k + 1) as nat) =~= spaces(k as nat) + seq![' ']);
                assert(text@ =~= old(text)@ + spaces((k + 1) as nat));
            }
            k += 1;
        }
        proof {
            assert(old(text)@ + spaces(0) =~= old(text)@);
        }
    }

    /// Centers `text` in `width` columns: equal padding on both sides, half
    /// the leftover width rounded down, so an odd leftover leaves the result
    /// one column short.
    pub fn center(width: u32, text: &str) -> (r: String)
        ensures
            r@ == centered_of(width as nat, text@),
    {
        let text_len = Format::visual_len(text);
        let w = width as usize;
        let padding: usize = if w >= text_len {
            (w - text_len) / 2
        } else {
            0
        };
        let mut centered_text = String::new();
        Format::pad(&mut centered_text, padding);
        centered_text.append(text);
        Format::pad(&mut centered_text, padding);
        proof {
            assert(centered_text@ =~= spaces(padding as nat) + text@ + spaces(padding as nat));
        }
        centered_text
    }

    /// Lays `str1`, then spaces filling the width, then `str2`. The fill
    /// saturates at zero when the two pieces overflow the width.
    pub fn stretch(width: u32, str1: &str, str2: &str) -> (r: String)
        ensures
            r@ == stretched_of(width as nat, str1@, str2@),
    {
        let len1 = Format::visual_len(str1);
        let len2 = Format::visual_len(str2);
        let w = width as usize;
        let fill: usize = if w >= len1 && w - len1 >= len2 {
            (w - len1) - len2
        } else {
            0
        };
        let mut stretched_text = String::new();
        stretched_text.append(str1);
        Format::pad(&mut stretched_text, fill);
        stretched_text.append(str2);
        proof {
            assert(stretched_text@ =~= str1@ + spaces(fill as nat) + str2@);
        }
        stretched_text
    }

    /// Pads `text` on the left to reach `width` columns.
    pub fn right(width: u32, text: &str) -> (r: String)
        ensures
            r@ == right_of(width as nat, text@),
    {
        let text_len = Format::visual_len(text);
        let w = width as usize;
        let padding: usize = if w >= text_len {
            w - text_len
        } else {
            0
        };
        let mut right_text = String::new();
        Format::pad(&mut right_text, padding);
        right_text.append(text);
        proof {
            assert(right_text@ =~= spaces(padding as nat) + text@);
        }
        right_text
    }

    /// Pads `text` on the right to reach `width` columns.
    pub fn left(width: u32, text: &str) -> (r: String)
        ensures
            r@ == left_of(width as nat, text@),
    {
        let text_len = Format::visual_len(text);
        let w = width as usize;
        let padding: usize = if w >= text_len {
            w - text_len
        } else {
            0
        };
        let mut left_text = String::new();
        left_text.append(text);
        Format::pad(&mut left_text, padding);
        proof {
            assert(left_text@ =~= text@ + spaces(padding as nat));
        }
        left_text
    }

    /// Relies on crossterm::terminal::size for the live terminal column
    /// count; nothing is known of the value, and a failed query is `None`.
    #[verifier::external_body]
    pub fn console_width() -> (r: Option<u32>) {
        crossterm::terminal::size().ok().map(|wh| wh.0 as u32)
    }
}

} // verus!
