//! The configuration data model: theme, module list, and the mutations the
//! width and align flags make on the in-memory theme.

use vstd::prelude::*;
use crate::numtext::{parse_width_permille, width_permille_of, str_eq, string_views};

verus! {

/// The alignment of the whole report inside the terminal.
#[derive(Debug, Clone, Copy, PartialEq, Eq, Structural)]
pub enum Align {
    Left,
    Right,
    Center,
}

/// Colors and layout settings. The width fraction of the terminal is held
/// on a per-mille scale.
pub struct Theme {
    pub gradient_from: u32,
    pub gradient_to: u32,
    pub headers: u32,
    pub text_key: u32,
    pub text_value: u32,
    pub width_permille: u32,
    pub align: Align,
}

impl Theme {
    /// Well-formed: the width fraction lies in (0, 1].
    pub open spec fn wf(&self) -> bool {
        0 < self.width_permille <= 1000
    }
}

/// One configured module: a provider name, an icon given as a hexadecimal
/// codepoint, and the stats to request, in order.
pub struct ModuleSpec {
    pub name: String,
    pub icon: String,
    pub stats: Vec<String>,
}

/// The whole configuration document.
pub struct Config {
    pub version: String,
    pub theme: Theme,
    pub modules: Vec<ModuleSpec>,
}

impl Config {
    pub open spec fn wf(&self) -> bool {
        self.theme.wf()
    }
}

/// The alignment that a flag value selects.
pub open spec fn align_of_text(s: Seq<char>) -> Option<Align> {
    if s == "left"@ {
        Some(Align::Left)
    } else if s == "right"@ {
        Some(Align::Right)
    } else if s == "center"@ {
        Some(Align::Center)
    } else {
        None
    }
}

/// Sets the theme's width fraction from a flag value: a plain decimal
/// numeral in (0, 1], read on the per-mille scale, replaces the fraction;
/// any other text leaves the theme unchanged.
pub fn apply_width(theme: &mut Theme, value: &str)
    ensures
        final(theme).gradient_from == old(theme).gradient_from,
        final(theme).gradient_to == old(theme).gradient_to,
        final(theme).headers == old(theme).headers,
        final(theme).text_key == old(theme).text_key,
        final(theme).text_value == old(theme).text_value,
        final(theme).align == old(theme).align,
        match width_permille_of(value@) {
            Some(p) => final(theme).width_permille == p,
            None => final(theme).width_permille == old(theme).width_permille,
        },
        old(theme).wf() ==> final(theme).wf(),
{
    match parse_width_permille(value) {
        Some(p) => {
            theme.width_permille = p;
        },
        None => {},
    }
}

/// Sets the theme's alignment from a flag value: `left`, `right` or
/// `center` replaces the alignment; any other text leaves the theme
/// unchanged.
pub fn apply_align(theme: &mut Theme, value: &str)
    ensures
        final(theme).gradient_from == old(theme).gradient_from,
        final(theme).gradient_to == old(theme).gradient_to,
        final(theme).headers == old(theme).headers,
        final(theme).text_key == old(theme).text_key,
        final(theme).text_value == old(theme).text_value,
        final(theme).width_permille == old(theme).width_permille,
        match align_of_text(value@) {
            Some(a) => final(theme).align == a,
            None => final(theme).align == old(theme).align,
        },
        old(theme).wf() ==> final(theme).wf(),
{
    if str_eq(value, "left") {
        theme.align = Align::Left;
    } else if str_eq(value, "right") {
        theme.align = Align::Right;
    } else if str_eq(value, "center") {
        theme.align = Align::Center;
    }
}

/// The configuration written on first run: the documented default theme
/// and the CPU and Memory modules with their full stat lists.
pub fn default_config() -> (c: Config)
    ensures
        c.wf(),
        c.version@ == "0.1.0"@,
        c.theme.gradient_from == 0xffffff,
        c.theme.gradient_to == 0x000000,
        c.theme.headers == 0x9FA1C9,
        c.theme.text_key == 0xF5C2E7,
        c.theme.text_value == 0x75AFFA,
        c.theme.width_permille == 500,
        c.theme.align == Align::Left,
        c.modules@.len() == 2,
        c.modules@[0].name@ == "CPU"@,
        c.modules@[0].icon@ == "f4bc"@,
        string_views(c.modules@[0].stats@) == seq![
            "name"@,
            "cores"@,
            "threads"@,
            "speed"@,
            "usage"@,
            "vendor"@,
            "architecture"@,
        ],
        c.modules@[1].name@ == "Memory"@,
        c.modules@[1].icon@ == "efc5"@,
        string_views(c.modules@[1].stats@) == seq![
            "total"@,
            "used"@,
            "free"@,
            "available"@,
            "swap_total"@,
            "swap_used"@,
            "swap_free"@,
            "percent"@,
        ],
{
    let cpu_stats: Vec<String> = vec![
        String::from_str("name"),
        String::from_str("cores"),
        String::from_str("threads"),
        String::from_str("speed"),
        String::from_str("usage"),
        String::from_str("vendor"),
        String::from_str("architecture"),
    ];
    let memory_stats: Vec<String> = vec![
        String::from_str("total"),
        String::from_str("used"),
        String::from_str("free"),
        String::from_str("available"),
        String::from_str("swap_total"),
        String::from_str("swap_used"),
        String::from_str("swap_free"),
        String::from_str("percent"),
    ];
    let modules: Vec<ModuleSpec> = vec![
        ModuleSpec { name: String::from_str("CPU"), icon: String::from_str("f4bc"), stats: cpu_stats },
        ModuleSpec {
            name: String::from_str("Memory"),
            icon: String::from_str("efc5"),
            stats: memory_stats,
        },
    ];
    let c = Config {
        version: String::from_str("0.1.0"),
        theme: Theme {
            gradient_from: 0xffffff,
            gradient_to: 0x000000,
            headers: 0x9FA1C9,
            text_key: 0xF5C2E7,
            text_value: 0x75AFFA,
            width_permille: 500,
            align: Align::Left,
        },
        modules,
    };
    proof {
        assert(string_views(c.modules@[0].stats@) =~= seq![
            "name"@,
            "cores"@,
            "threads"@,
            "speed"@,
            "usage"@,
            "vendor"@,
            "architecture"@,
        ]);
        assert(string_views(c.modules@[1].stats@) =~= seq![
            "total"@,
            "used"@,
            "free"@,
            "available"@,
            "swap_total"@,
            "swap_used"@,
            "swap_free"@,
            "percent"@,
        ]);
    }
    c
}

} // verus!
