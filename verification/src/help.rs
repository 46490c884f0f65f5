//! The help text: one entry per recognized flag, its title colorized bold
//! in the header color, each description line and the example line
//! indented and colorized in the key color, and a blank line after each
//! entry.

use vstd::prelude::*;
use crate::chalk::{Chalk, colorized};

verus! {

/// An entry's title line: the title colorized bold, then a line break.
pub open spec fn title_line(t: Seq<char>, headers: u32) -> Seq<char> {
    colorized(t, headers, true) + "\n"@
}

/// An entry's description or example line: an indent, the line colorized,
/// then a line break.
pub open spec fn desc_line(l: Seq<char>, key: u32) -> Seq<char> {
    "   "@ + colorized(l, key, false) + "\n"@
}

/// The whole help text: one entry per recognized flag in alphabetical
/// order, each with its flag forms, its description lines, an example
/// line, and a blank line after it.
pub open spec fn help_text(headers: u32, key: u32) -> Seq<char> {
    title_line("align [ -a | --align ]"@, headers) + desc_line(
        "Change the alignment of the output in the terminal."@,
        key,
    ) + desc_line("The Format is a string:"@, key) + desc_line("left, right, center"@, key)
        + desc_line("`-a=left` or `--align=left`"@, key) + "\n"@ + title_line(
        "config [ -c | --config ]"@,
        headers,
    ) + desc_line("Change the configuration of the program."@, key) + desc_line(
        "This will open the configuration file in your default text editor."@,
        key,
    ) + desc_line("`-c` or `--config`"@, key) + "\n"@ + title_line(
        "help [ -h | --help ]"@,
        headers,
    ) + desc_line("Print this help text to the terminal."@, key) + desc_line(
        "`-h` or `--help`"@,
        key,
    ) + "\n"@ + title_line("version [ -v | --version ]"@, headers) + desc_line(
        "Print the version of the program to the terminal."@,
        key,
    ) + desc_line("`-v` or `--version`"@, key) + "\n"@ + title_line(
        "width [ -w | --width ]"@,
        headers,
    ) + desc_line("Change the width of the output in the terminal."@, key) + desc_line(
        "The Format is a float:"@,
        key,
    ) + desc_line("0.0 - 1.0 (0% - 100%)"@, key) + desc_line("`-w=0.5` or `--width=0.5`"@, key)
        + "\n"@
}

/// One title line.
fn title_string(t: &str, headers: u32) -> (r: String)
    ensures
        r@ == title_line(t@, headers),
{
    let r = Chalk::colorize(t, headers, true);
    let r = r.concat("\n");
    proof {
        assert(r@ =~= title_line(t@, headers));
    }
    r
}

/// One description or example line.
fn desc_string(l: &str, key: u32) -> (r: String)
    ensures
        r@ == desc_line(l@, key),
{
    let r = String::from_str("   ");
    let r = r.concat(Chalk::colorize(l, key, false).as_str());
    let r = r.concat("\n");
    proof {
        assert(r@ =~= desc_line(l@, key));
    }
    r
}

/// The usage text printed by the help flag: every recognized flag with its
/// forms, its description, and an example, colored with the theme's header
/// and key colors.
pub fn display_help(headers: u32, key: u32) -> (r: String)
    ensures
        r@ == help_text(headers, key),
{
    let mut s = String::new();
    s.append(title_string("align [ -a | --align ]", headers).as_str());
    s.append(desc_string("Change the alignment of the output in the terminal.", key).as_str());
    s.append(desc_string("The Format is a string:", key).as_str());
    s.append(desc_string("left, right, center", key).as_str());
    s.append(desc_string("`-a=left` or `--align=left`", key).as_str());
    s.append("\n");
    s.append(title_string("config [ -c | --config ]", headers).as_str());
    s.append(desc_string("Change the configuration of the program.", key).as_str());
    s.append(
        desc_string("This will open the configuration file in your default text editor.", key).as_str(),
    );
    s.append(desc_string("`-c` or `--config`", key).as_str());
    s.append("\n");
    s.append(title_string("help [ -h | --help ]", headers).as_str());
    s.append(desc_string("Print this help text to the terminal.", key).as_str());
    s.append(desc_string("`-h` or `--help`", key).as_str());
    s.append("\n");
    s.append(title_string("version [ -v | --version ]", headers).as_str());
    s.append(desc_string("Print the version of the program to the terminal.", key).as_str());
    s.append(desc_string("`-v` or `--version`", key).as_str());
    s.append("\n");
    s.append(title_string("width [ -w | --width ]", headers).as_str());
    s.append(desc_string("Change the width of the output in the terminal.", key).as_str());
    s.append(desc_string("The Format is a float:", key).as_str());
    s.append(desc_string("0.0 - 1.0 (0% - 100%)", key).as_str());
    s.append(desc_string("`-w=0.5` or `--width=0.5`", key).as_str());
    s.append("\n");
    proof {
        assert(s@ =~= help_text(headers, key));
    }
    s
}

} // verus!
