//! Terminal coloring: wraps text in a true-color escape sequence, with an
//! optional bold flag, and a reset sequence after it.

use vstd::prelude::*;
use crate::numtext::{dec_digits, u64_to_string};
use crate::layout::{
    is_sgr_body, is_escape_start, escape_len, body_end, strip_colors, visual_len_of,
};

verus! {

/// The reset sequence laid after colorized text.
pub open spec fn reset_escape() -> Seq<char> {
    seq!['\x1b', '[', '0', 'm']
}

/// The body of the opening escape sequence: the bold flag, the true-color
/// introducer, and the three decimal color components.
pub open spec fn color_escape_body(color: u32, bold: bool) -> Seq<char> {
    (if bold {
        seq!['1']
    } else {
        seq!['0']
    }) + seq![';', '3', '8', ';', '2', ';'] + dec_digits(((color >> 16) & 0xff) as nat)
        + seq![';'] + dec_digits(((color >> 8) & 0xff) as nat) + seq![';'] + dec_digits(
        (color & 0xff) as nat,
    )
}

/// The opening escape sequence for a color and bold flag.
pub open spec fn color_escape_prefix(color: u32, bold: bool) -> Seq<char> {
    seq!['\x1b', '['] + color_escape_body(color, bold) + seq!['m']
}

/// `text` wrapped in the opening escape sequence and the reset sequence.
pub open spec fn colorized(text: Seq<char>, color: u32, bold: bool) -> Seq<char> {
    color_escape_prefix(color, bold) + text + reset_escape()
}

pub struct Chalk {}

impl Chalk {
    /// Wraps `text` in a true-color escape sequence for the 24-bit `color`,
    /// bold when `bold` is set, with a reset sequence after it.
    pub fn colorize(text: &str, color: u32, bold: bool) -> (r: String)
        ensures
            r@ == colorized(text@, color, bold),
    {
        let mut s = String::new();
        s.append("\x1b[");
        s.append(if bold { "1" } else { "0" });
        s.append(";38;2;");
        let red = u64_to_string(((color >> 16) & 0xff) as u64);
        s.append(red.as_str());
        s.append(";");
        let green = u64_to_string(((color >> 8) & 0xff) as u64);
        s.append(green.as_str());
        s.append(";");
        let blue = u64_to_string((color & 0xff) as u64);
        s.append(blue.as_str());
        s.append("m");
        s.append(text);
        s.append("\x1b[0m");
        proof {
            reveal_strlit("\x1b[");
            reveal_strlit("1");
            reveal_strlit("0");
            reveal_strlit(";38;2;");
            reveal_strlit(";");
            reveal_strlit("m");
            reveal_strlit("\x1b[0m");
            assert(s@ =~= colorized(text@, color, bold));
        }
        s
    }
}

proof fn lemma_dec_digits_sgr(n: nat)
    ensures
        dec_digits(n).len() >= 1,
        forall|i: int| 0 <= i < dec_digits(n).len() ==> is_sgr_body(#[trigger] dec_digits(n)[i]),
    decreases n,
{
    if n >= 10 {
        lemma_dec_digits_sgr(n / 10);
    }
}

proof fn lemma_body_end_props(s: Seq<char>, i: int)
    requires
        0 <= i <= s.len(),
    ensures
        i <= body_end(s, i) <= s.len(),
        forall|j: int| i <= j < body_end(s, i) ==> is_sgr_body(#[trigger] s[j]),
        body_end(s, i) < s.len() ==> !is_sgr_body(s[body_end(s, i)]),
    decreases s.len() - i,
{
    if i < s.len() && is_sgr_body(s[i]) {
        lemma_body_end_props(s, i + 1);
    }
}

proof fn lemma_body_end_exact(s: Seq<char>, i: int, k: int)
    requires
        0 <= i <= k <= s.len(),
        forall|j: int| i <= j < k ==> is_sgr_body(#[trigger] s[j]),
        k < s.len() ==> !is_sgr_body(s[k]),
    ensures
        body_end(s, i) == k,
    decreases k - i,
{
    if i < s.len() && is_sgr_body(s[i]) {
        lemma_body_end_exact(s, i + 1, k);
    }
}

/// Stripping ignores a trailing reset sequence: it reads the text left to
/// right, and the reset sequence can neither merge with what stands before
/// it nor leave anything behind.
proof fn lemma_strip_append_reset(t: Seq<char>)
    ensures
        strip_colors(t + reset_escape()) == strip_colors(t),
    decreases t.len(),
{
    let s = t + reset_escape();
    if t.len() == 0 {
        assert(s =~= reset_escape());
        assert(s[2] == '0' && s[3] == 'm');
        assert(!is_sgr_body(s[3]));
        lemma_body_end_exact(s, 2, 3);
        assert(is_escape_start(s));
        assert(escape_len(s) == 4);
        assert(s.skip(4) =~= Seq::<char>::empty());
        assert(strip_colors(Seq::<char>::empty()) =~= Seq::<char>::empty());
        assert(strip_colors(s) == strip_colors(s.skip(4)));
        assert(strip_colors(t) =~= Seq::<char>::empty());
        assert(strip_colors(s) == strip_colors(t));
    } else {
        assert(forall|j: int| 0 <= j < t.len() ==> s[j] == t[j]);
        if is_escape_start(t) {
            let k = body_end(t, 2);
            lemma_body_end_props(t, 2);
            assert forall|j: int| 2 <= j < k implies is_sgr_body(#[trigger] s[j]) by {
                assert(s[j] == t[j]);
            }
            lemma_body_end_exact(s, 2, k);
            assert(is_escape_start(s));
            assert(s.skip(k + 1) =~= t.skip(k + 1) + reset_escape());
            lemma_strip_append_reset(t.skip(k + 1));
            assert(strip_colors(s) == strip_colors(t));
        } else {
            if t.len() == 1 {
                if t[0] == '\x1b' {
                    assert(s[1] == '\x1b');
                    assert(!is_escape_start(s));
                } else {
                    assert(!is_escape_start(s));
                }
            } else if t[0] == '\x1b' && t[1] == '[' {
                let k = body_end(t, 2);
                lemma_body_end_props(t, 2);
                if k < t.len() {
                    assert forall|j: int| 2 <= j < k implies is_sgr_body(#[trigger] s[j]) by {
                        assert(s[j] == t[j]);
                    }
                    assert(s[k] == t[k]);
                    lemma_body_end_exact(s, 2, k);
                    assert(s[k] != 'm');
                    assert(!is_escape_start(s));
                } else {
                    assert forall|j: int| 2 <= j < t.len() implies is_sgr_body(
                        #[trigger] s[j],
                    ) by {
                        assert(s[j] == t[j]);
                    }
                    assert(s[t.len() as int] == '\x1b');
                    assert(!is_sgr_body(s[t.len() as int]));
                    lemma_body_end_exact(s, 2, t.len() as int);
                    assert(!is_escape_start(s));
                }
            } else {
                assert(!is_escape_start(s));
            }
            assert(s.skip(1) =~= t.skip(1) + reset_escape());
            lemma_strip_append_reset(t.skip(1));
            assert(seq![s[0]] + strip_colors(t.skip(1)) =~= seq![t[0]] + strip_colors(t.skip(1)));
            assert(strip_colors(s) == strip_colors(t));
        }
    }
}

/// Stripping a colorized string strips exactly the two escape sequences
/// that colorizing laid around the text: what is left is the stripped text.
pub proof fn lemma_strip_colorized(text: Seq<char>, color: u32, bold: bool)
    ensures
        strip_colors(colorized(text, color, bold)) == strip_colors(text),
{
    let p = color_escape_prefix(color, bold);
    let body = color_escape_body(color, bold);
    let s = colorized(text, color, bold);
    lemma_dec_digits_sgr(((color >> 16) & 0xff) as nat);
    lemma_dec_digits_sgr(((color >> 8) & 0xff) as nat);
    lemma_dec_digits_sgr((color & 0xff) as nat);
    assert forall|j: int| 0 <= j < body.len() implies is_sgr_body(#[trigger] body[j]) by {
        let flag = if bold {
            seq!['1']
        } else {
            seq!['0']
        };
        let fixed = seq![';', '3', '8', ';', '2', ';'];
        let red = dec_digits(((color >> 16) & 0xff) as nat);
        let green = dec_digits(((color >> 8) & 0xff) as nat);
        let blue = dec_digits((color & 0xff) as nat);
        if j < 1 {
            assert(body[j] == flag[0]);
        } else if j < 7 {
            assert(body[j] == fixed[j - 1]);
        } else if j < 7 + red.len() {
            assert(body[j] == red[j - 7]);
        } else if j < 8 + red.len() {
            assert(body[j] == ';');
        } else if j < 8 + red.len() + green.len() {
            assert(body[j] == green[j - 8 - red.len()]);
        } else if j < 9 + red.len() + green.len() {
            assert(body[j] == ';');
        } else {
            assert(body[j] == blue[j - 9 - red.len() - green.len()]);
        }
    }
    assert(s[0] == '\x1b');
    assert(s[1] == '[');
    assert forall|j: int| 2 <= j < p.len() - 1 implies is_sgr_body(#[trigger] s[j]) by {
        assert(s[j] == p[j]);
        assert(p[j] == body[j - 2]);
    }
    assert(s[p.len() - 1] == p[p.len() - 1]);
    assert(p[p.len() - 1] == 'm');
    assert(!is_sgr_body('m'));
    lemma_body_end_exact(s, 2, p.len() - 1);
    assert(is_escape_start(s));
    assert(escape_len(s) == p.len());
    assert(s.skip(p.len() as int) =~= text + reset_escape());
    lemma_strip_append_reset(text);
}

/// Colorizing some text and then stripping escape sequences hands the text
/// back unchanged, for any color and bold flag, whenever the text holds no
/// escape sequence of its own.
pub proof fn lemma_colorize_roundtrip(text: Seq<char>, color: u32, bold: bool)
    requires
        strip_colors(text) == text,
    ensures
        strip_colors(colorized(text, color, bold)) == text,
{
    lemma_strip_colorized(text, color, bold);
}

/// Colorizing never changes the visual length of text, for any color and
/// bold flag.
pub proof fn lemma_colorize_visual_len(text: Seq<char>, color: u32, bold: bool)
    ensures
        visual_len_of(colorized(text, color, bold)) == visual_len_of(text),
{
    lemma_strip_colorized(text, color, bold);
}

} // verus!
