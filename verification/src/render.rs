//! The renderer: matches configured modules against the provider registry,
//! resolves icons, lays a centered header and stretched stat lines at the
//! module width, and re-justifies every line at the terminal width.

use vstd::prelude::*;
use crate::chalk::{Chalk, colorized};
use crate::config::{Align, Config, ModuleSpec};
use crate::layout::{Format, centered_of, stretched_of, right_of, left_of};
use crate::modules::provider::{Provider, ProviderEntry, provider_rows, find_provider_at, lookup_provider};
use crate::numtext::{all_hex_digits, hex_value, parse_hex_u32, string_views};
use crate::stat::{StatPair, pair_views};

verus! {

/// One module ready to render: its icon as a Unicode codepoint, its name
/// and its rows.
#[derive(Debug)]
pub struct ModuleRender {
    pub icon: u32,
    pub name: String,
    pub rows: Vec<StatPair>,
}

/// A configured icon that names no Unicode character: the offending icon
/// text.
#[derive(Debug)]
pub struct IconError {
    pub icon: String,
}

impl IconError {
    /// The error, worded for the user.
    pub fn message(&self) -> (r: String)
        ensures
            r@ == "invalid icon codepoint: "@ + self.icon@,
    {
        let r = String::from_str("invalid icon codepoint: ");
        r.concat(self.icon.as_str())
    }
}

/// Whether `v` is a Unicode scalar value: outside the surrogate range and
/// at most 0x10FFFF.
pub open spec fn is_scalar_value(v: nat) -> bool {
    v < 0xD800 || (0xDFFF < v && v <= 0x10FFFF)
}

/// Whether an icon text resolves to a character: a nonempty run of
/// hexadecimal digits whose value is a Unicode scalar value.
pub open spec fn valid_icon_text(s: Seq<char>) -> bool {
    s.len() > 0 && all_hex_digits(s) && is_scalar_value(hex_value(s))
}

/// The character with the codepoint `v`, for a Unicode scalar value.
pub open spec fn char_of(v: nat) -> char {
    choose|c: char| (#[trigger] (c as u32)) as nat == v
}

/// Relies on char::from_u32 and char::to_string: the one-character string
/// of the character with the codepoint `v`.
#[verifier::external_body]
fn codepoint_to_string(v: u32) -> (r: String)
    requires
        is_scalar_value(v as nat),
    ensures
        r@ == seq![char_of(v as nat)],
{
    match char::from_u32(v) {
        Some(c) => c.to_string(),
        None => String::new(),
    }
}

/// Whether `v` is a Unicode scalar value.
fn scalar_value(v: u32) -> (r: bool)
    ensures
        r == is_scalar_value(v as nat),
{
    v < 0xD800 || (0xDFFF < v && v <= 0x10FFFF)
}

/// Resolves an icon text, a hexadecimal numeral, to its codepoint.
pub fn resolve_icon(hex: &str) -> (r: Option<u32>)
    ensures
        r matches Some(v) ==> valid_icon_text(hex@) && v as nat == hex_value(hex@),
        r is Some <==> valid_icon_text(hex@),
{
    match parse_hex_u32(hex) {
        Some(v) => {
            if scalar_value(v) {
                Some(v)
            } else {
                None
            }
        },
        None => None,
    }
}

/// The width the modules render at: the given fraction of the console
/// width, rounded down.
pub fn module_width(console: u32, permille: u32) -> (r: u32)
    requires
        permille <= 1000,
    ensures
        r == (console * permille) / 1000,
{
    proof {
        assert((console as int) * (permille as int) <= 0xffffffff * 1000) by (nonlinear_arith)
            requires
                (console as int) <= 0xffffffff,
                (permille as int) <= 1000;
        assert(((console as int) * (permille as int)) / 1000 <= console as int)
            by (nonlinear_arith)
            requires
                (permille as int) <= 1000,
                (console as int) >= 0;
    }
    let wide: u64 = (console as u64) * (permille as u64) / 1000;
    wide as u32
}

/// A module's header text: the icon character, two spaces, the module
/// name.
pub open spec fn header_text_of(icon: u32, name: Seq<char>) -> Seq<char> {
    seq![char_of(icon as nat)] + "  "@ + name
}

/// A module's header line: the header text, colorized bold in the header
/// color and centered at the module width.
pub open spec fn header_line_of(width: u32, icon: u32, name: Seq<char>, headers: u32) -> Seq<
    char,
> {
    centered_of(width as nat, colorized(header_text_of(icon, name), headers, true))
}

/// One stat line: the colorized key stretched against the colorized value
/// at the module width.
pub open spec fn stat_line_of(width: u32, key_color: u32, value_color: u32) -> spec_fn(
    (Seq<char>, Seq<char>),
) -> Seq<char> {
    |kv: (Seq<char>, Seq<char>)|
        stretched_of(
            width as nat,
            colorized(kv.0, key_color, false),
            colorized(kv.1, value_color, false),
        )
}

/// A module's lines: its header line, then one line per stat row.
pub open spec fn module_lines_of(
    width: u32,
    m: ModuleRender,
    headers: u32,
    key_color: u32,
    value_color: u32,
) -> Seq<Seq<char>> {
    seq![header_line_of(width, m.icon, m.name@, headers)] + pair_views(m.rows@).map_values(
        stat_line_of(width, key_color, value_color),
    )
}

/// The report's lines: each module's lines in order.
pub open spec fn report_lines_of(
    width: u32,
    items: Seq<ModuleRender>,
    headers: u32,
    key_color: u32,
    value_color: u32,
) -> Seq<Seq<char>>
    decreases items.len(),
{
    if items.len() == 0 {
        Seq::empty()
    } else {
        report_lines_of(width, items.drop_last(), headers, key_color, value_color)
            + module_lines_of(width, items.last(), headers, key_color, value_color)
    }
}

/// One line re-justified at the console width by the alignment setting.
pub open spec fn aligned_line_of(align: Align, console: u32) -> spec_fn(Seq<char>) -> Seq<char> {
    |l: Seq<char>|
        match align {
            Align::Center => centered_of(console as nat, l),
            Align::Right => right_of(console as nat, l),
            Align::Left => left_of(console as nat, l),
        }
}

/// The module's header string: the icon character, two spaces, the module
/// name.
fn header_string(icon: u32, name: &str) -> (r: String)
    requires
        is_scalar_value(icon as nat),
    ensures
        r@ == header_text_of(icon, name@),
{
    let r = codepoint_to_string(icon);
    let r = r.concat("  ");
    let r = r.concat(name);
    proof {
        assert(r@ =~= header_text_of(icon, name@));
    }
    r
}

/// Renders one module: its header line, then one line per stat row.
pub fn render_module(
    width: u32,
    item: &ModuleRender,
    headers: u32,
    key_color: u32,
    value_color: u32,
) -> (r: Vec<String>)
    requires
        is_scalar_value(item.icon as nat),
    ensures
        string_views(r@) == module_lines_of(width, *item, headers, key_color, value_color),
{
    let ghost f = stat_line_of(width, key_color, value_color);
    let mut lines: Vec<String> = Vec::new();
    let header = header_string(item.icon, item.name.as_str());
    let colored = Chalk::colorize(header.as_str(), headers, true);
    lines.push(Format::center(width, colored.as_str()));
    let n = item.rows.len();
    let mut i: usize = 0;
    proof {
        assert(string_views(lines@) =~= seq![
            header_line_of(width, item.icon, item.name@, headers),
        ]);
    }
    while i < n
        invariant
            i <= n,
            n == item.rows@.len(),
            f == stat_line_of(width, key_color, value_color),
            lines@.len() == i + 1,
            string_views(lines@) =~= seq![header_line_of(width, item.icon, item.name@, headers)]
                + pair_views(item.rows@).map_values(f).take(i as int),
        decreases n - i,
    {
        let ghost prev = lines@;
        let row = &item.rows[i];
        let key_colored = Chalk::colorize(row.key.as_str(), key_color, false);
        let value_colored = Chalk::colorize(row.value.as_str(), value_color, false);
        lines.push(Format::stretch(width, key_colored.as_str(), value_colored.as_str()));
        proof {
            let mapped = pair_views(item.rows@).map_values(f);
            assert(pair_views(item.rows@)[i as int] == (row.key@, row.value@));
            assert(mapped[i as int] == f((row.key@, row.value@)));
            assert(mapped.take(i + 1) =~= mapped.take(i as int).push(mapped[i as int]));
            assert forall|k: int| 0 <= k < lines@.len() implies #[trigger] string_views(lines@)[k]
                == (seq![header_line_of(width, item.icon, item.name@, headers)] + mapped.take(
                i + 1,
            ))[k] by {
                assert(string_views(lines@)[k] == lines@[k]@);
                if k < prev.len() {
                    assert(lines@[k] == prev[k]);
                    assert(string_views(prev)[k] == prev[k]@);
                } else {
                    assert(lines@[k] == lines@.last());
                }
            }
            assert(string_views(lines@) =~= seq![
                header_line_of(width, item.icon, item.name@, headers),
            ] + mapped.take(i + 1));
        }
        i += 1;
    }
    proof {
        let mapped = pair_views(item.rows@).map_values(f);
        assert(mapped.take(n as int) =~= mapped);
    }
    lines
}

/// Re-justifies every line at the console width by the alignment setting.
pub fn align_lines(lines: &Vec<String>, align: Align, console: u32) -> (r: Vec<String>)
    ensures
        string_views(r@) == string_views(lines@).map_values(aligned_line_of(align, console)),
{
    let ghost f = aligned_line_of(align, console);
    let mut out: Vec<String> = Vec::new();
    let n = lines.len();
    let mut i: usize = 0;
    while i < n
        invariant
            i <= n,
            n == lines@.len(),
            f == aligned_line_of(align, console),
            out@.len() == i,
            string_views(out@) =~= string_views(lines@).map_values(f).take(i as int),
        decreases n - i,
    {
        let ghost prev = out@;
        let line = &lines[i];
        let justified = match align {
            Align::Center => Format::center(console, line.as_str()),
            Align::Right => Format::right(console, line.as_str()),
            Align::Left => Format::left(console, line.as_str()),
        };
        out.push(justified);
        proof {
            let mapped = string_views(lines@).map_values(f);
            assert(string_views(lines@)[i as int] == lines@[i as int]@);
            assert(mapped[i as int] == f(lines@[i as int]@));
            assert(mapped.take(i + 1) =~= mapped.take(i as int).push(mapped[i as int]));
            assert forall|k: int| 0 <= k < out@.len() implies #[trigger] string_views(out@)[k]
                == mapped.take(i + 1)[k] by {
                assert(string_views(out@)[k] == out@[k]@);
                if k < prev.len() {
                    assert(out@[k] == prev[k]);
                    assert(string_views(prev)[k] == prev[k]@);
                } else {
                    assert(out@[k] == out@.last());
                }
            }
            assert(string_views(out@) =~= mapped.take(i + 1));
        }
        i += 1;
    }
    proof {
        assert(string_views(lines@).map_values(f).take(n as int) =~= string_views(
            lines@,
        ).map_values(f));
    }
    out
}

/// Whether a configured module has a provider in the registry.
pub open spec fn has_provider(reg: Seq<ProviderEntry>, m: ModuleSpec) -> bool {
    find_provider_at(reg, m.name@, 0) < reg.len()
}

/// The configured modules that have a provider, in configuration order.
pub open spec fn matched_modules(mods: Seq<ModuleSpec>, reg: Seq<ProviderEntry>) -> Seq<
    ModuleSpec,
> {
    mods.filter(|m: ModuleSpec| has_provider(reg, m))
}

/// Whether one prepared item renders one configured module: the icon
/// resolves the module's codepoint, the name carries over, and the rows
/// are what the module's provider yields for its stat list.
pub open spec fn item_matches(item: ModuleRender, m: ModuleSpec, reg: Seq<ProviderEntry>) -> bool {
    &&& valid_icon_text(m.icon@)
    &&& item.icon as nat == hex_value(m.icon@)
    &&& item.name@ == m.name@
    &&& pair_views(item.rows@) == provider_rows(
        reg[find_provider_at(reg, m.name@, 0)].provider,
        string_views(m.stats@),
    )
}

/// Matches each configured module against the registry in order, skipping
/// the ones no provider carries, resolves each kept module's icon, and
/// queries its provider. The first kept module whose icon text names no
/// Unicode character ends the report with an error naming that text.
pub fn prepare_modules(config: &Config, registry: &Vec<ProviderEntry>) -> (r: Result<
    Vec<ModuleRender>,
    IconError,
>)
    requires
        forall|i: int| 0 <= i < registry@.len() ==> (#[trigger] registry@[i].provider).wf(),
    ensures
        r is Ok <==> (forall|k: int|
            0 <= k < matched_modules(config.modules@, registry@).len() ==> valid_icon_text(
                #[trigger] matched_modules(config.modules@, registry@)[k].icon@,
            )),
        r matches Ok(items) ==> items@.len() == matched_modules(config.modules@, registry@).len()
            && (forall|k: int|
            0 <= k < items@.len() ==> item_matches(
                #[trigger] items@[k],
                matched_modules(config.modules@, registry@)[k],
                registry@,
            )),
        r matches Err(e) ==> exists|k: int|
            0 <= k < matched_modules(config.modules@, registry@).len() && !valid_icon_text(
                #[trigger] matched_modules(config.modules@, registry@)[k].icon@,
            ) && e.icon@ == matched_modules(config.modules@, registry@)[k].icon@,
{
    let ghost mods = config.modules@;
    let ghost pred = |m: ModuleSpec| has_provider(registry@, m);
    let mut items: Vec<ModuleRender> = Vec::new();
    let n = config.modules.len();
    let mut i: usize = 0;
    proof {
        assert(mods.take(0) =~= Seq::<ModuleSpec>::empty());
        assert(Seq::<ModuleSpec>::empty().filter(pred) =~= Seq::<ModuleSpec>::empty());
    }
    while i < n
        invariant
            i <= n,
            n == mods.len(),
            mods == config.modules@,
            pred == (|m: ModuleSpec| has_provider(registry@, m)),
            forall|j: int| 0 <= j < registry@.len() ==> (#[trigger] registry@[j].provider).wf(),
            items@.len() == mods.take(i as int).filter(pred).len(),
            forall|k: int|
                0 <= k < items@.len() ==> item_matches(
                    #[trigger] items@[k],
                    mods.take(i as int).filter(pred)[k],
                    registry@,
                ),
        decreases n - i,
    {
        let m = &config.modules[i];
        proof {
            assert(mods.take(i + 1) =~= mods.take(i as int).push(mods[i as int]));
            mods.take(i as int).lemma_filter_push(mods[i as int], pred);
        }
        match lookup_provider(registry, m.name.as_str()) {
            Some(entry) => {
                proof {
                    assert(pred(mods[i as int]));
                }
                match resolve_icon(m.icon.as_str()) {
                    Some(icon) => {
                        proof {
                            assert(registry@[find_provider_at(registry@, m.name@, 0)].provider.wf());
                            assert(entry.provider.wf());
                        }
                        let rows = entry.provider.handle(&m.stats);
                        let ghost prev = items@;
                        let item = ModuleRender { icon, name: m.name.clone(), rows };
                        proof {
                            assert(item_matches(item, mods[i as int], registry@));
                        }
                        items.push(item);
                        proof {
                            assert(items@.len() == prev.len() + 1);
                            assert(mods.take(i + 1).filter(pred) == mods.take(i as int).filter(
                                pred,
                            ).push(mods[i as int]));
                            assert(item_matches(items@[items@.len() - 1], mods[i as int], registry@));
                            assert forall|k: int| 0 <= k < items@.len() implies item_matches(
                                #[trigger] items@[k],
                                mods.take(i + 1).filter(pred)[k],
                                registry@,
                            ) by {
                                if k < prev.len() {
                                    assert(items@[k] == prev[k]);
                                    assert(mods.take(i + 1).filter(pred)[k] == mods.take(
                                        i as int,
                                    ).filter(pred)[k]);
                                }
                            }
                        }
                    },
                    None => {
                        proof {
                            assert(pred(mods[i as int]));
                            assert(mods.take(i + 1).filter(pred) == mods.take(i as int).filter(
                                pred,
                            ).push(mods[i as int]));
                            lemma_filter_take_len(mods, pred, i + 1);
                            lemma_filter_take_prefix(mods, pred, i + 1);
                            let bad = mods.take(i + 1).filter(pred).len() - 1;
                            assert(matched_modules(mods, registry@)[bad] == mods[i as int]);
                            assert(!valid_icon_text(matched_modules(mods, registry@)[bad].icon@));
                        }
                        return Err(IconError { icon: m.icon.clone() });
                    },
                }
            },
            None => {
                proof {
                    assert(!pred(mods[i as int]));
                    assert(mods.take(i + 1).filter(pred) == mods.take(i as int).filter(pred));
                }
            },
        }
        i += 1;
    }
    proof {
        assert(mods.take(n as int) =~= mods);
        assert forall|k: int|
            0 <= k < matched_modules(mods, registry@).len() implies valid_icon_text(
            #[trigger] matched_modules(mods, registry@)[k].icon@,
        ) by {
            assert(item_matches(items@[k], matched_modules(mods, registry@)[k], registry@));
        }
    }
    Ok(items)
}

/// The length of a filtered take never exceeds the length of the whole
/// filtered sequence, and the filtered take is a prefix of the whole
/// filtered sequence.
proof fn lemma_filter_take_len<A>(s: Seq<A>, pred: spec_fn(A) -> bool, i: int)
    requires
        0 <= i <= s.len(),
    ensures
        s.take(i).filter(pred).len() <= s.filter(pred).len(),
        s.take(i).filter(pred) == s.filter(pred).take(s.take(i).filter(pred).len() as int),
    decreases s.len() - i,
{
    if i == s.len() {
        assert(s.take(i) =~= s);
        assert(s.filter(pred).take(s.filter(pred).len() as int) =~= s.filter(pred));
    } else {
        lemma_filter_take_len(s, pred, i + 1);
        assert(s.take(i + 1) =~= s.take(i).push(s[i]));
        s.take(i).lemma_filter_push(s[i], pred);
        let l1 = s.take(i + 1).filter(pred).len();
        if pred(s[i]) {
            assert(s.take(i + 1).filter(pred) == s.take(i).filter(pred).push(s[i]));
            assert(s.take(i).filter(pred) =~= s.take(i + 1).filter(pred).drop_last());
            assert(s.take(i).filter(pred) =~= s.filter(pred).take(l1 - 1));
        } else {
            assert(s.take(i + 1).filter(pred) == s.take(i).filter(pred));
        }
    }
}

/// A filtered take ends with the element that made it grow.
proof fn lemma_filter_take_prefix<A>(s: Seq<A>, pred: spec_fn(A) -> bool, i: int)
    requires
        0 < i <= s.len(),
        pred(s[i - 1]),
    ensures
        s.take(i).filter(pred).len() >= 1,
        s.filter(pred)[s.take(i).filter(pred).len() - 1] == s[i - 1],
{
    assert(s.take(i) =~= s.take(i - 1).push(s[i - 1]));
    s.take(i - 1).lemma_filter_push(s[i - 1], pred);
    assert(s.take(i).filter(pred) == s.take(i - 1).filter(pred).push(s[i - 1]));
    lemma_filter_take_len(s, pred, i);
    let l = s.take(i).filter(pred).len();
    assert(s.take(i).filter(pred) == s.filter(pred).take(l as int));
    assert(s.filter(pred).take(l as int)[l - 1] == s.filter(pred)[l - 1]);
}

/// Renders the whole report: each prepared module's lines in order.
pub fn render_lines(
    width: u32,
    items: &Vec<ModuleRender>,
    headers: u32,
    key_color: u32,
    value_color: u32,
) -> (r: Vec<String>)
    requires
        forall|k: int|
            0 <= k < items@.len() ==> is_scalar_value((#[trigger] items@[k]).icon as nat),
    ensures
        string_views(r@) == report_lines_of(width, items@, headers, key_color, value_color),
{
    let mut lines: Vec<String> = Vec::new();
    let n = items.len();
    let mut i: usize = 0;
    proof {
        assert(string_views(lines@) =~= report_lines_of(
            width,
            items@.take(0),
            headers,
            key_color,
            value_color,
        ));
    }
    while i < n
        invariant
            i <= n,
            n == items@.len(),
            forall|k: int|
                0 <= k < items@.len() ==> is_scalar_value((#[trigger] items@[k]).icon as nat),
            string_views(lines@) =~= report_lines_of(
                width,
                items@.take(i as int),
                headers,
                key_color,
                value_color,
            ),
        decreases n - i,
    {
        let ghost prev = lines@;
        let item = &items[i];
        let module_out = render_module(width, item, headers, key_color, value_color);
        let ghost module_view = string_views(module_out@);
        let m = module_out.len();
        let mut j: usize = 0;
        proof {
            assert(string_views(prev) + module_view.take(0) =~= string_views(prev));
        }
        while j < m
            invariant
                j <= m,
                m == module_out@.len(),
                module_view == string_views(module_out@),
                module_view.len() == m,
                lines@.len() == prev.len() + j,
                string_views(lines@) =~= string_views(prev) + module_view.take(j as int),
            decreases m - j,
        {
            let ghost mid = lines@;
            let line = module_out[j].clone();
            proof {
                assert(module_view[j as int] == module_out@[j as int]@);
                assert(line@ == module_view[j as int]);
            }
            lines.push(line);
            proof {
                assert forall|k: int| 0 <= k < lines@.len() implies #[trigger] string_views(
                    lines@,
                )[k] == (string_views(prev) + module_view.take(j + 1))[k] by {
                    assert(string_views(lines@)[k] == lines@[k]@);
                    if k < mid.len() {
                        assert(lines@[k] == mid[k]);
                        assert(string_views(mid)[k] == mid[k]@);
                    } else {
                        assert(lines@[k] == lines@.last());
                    }
                }
                assert(string_views(lines@) =~= string_views(prev) + module_view.take(j + 1));
            }
            j += 1;
        }
        proof {
            assert(module_view.take(m as int) =~= module_view);
            assert(items@.take(i + 1).drop_last() =~= items@.take(i as int));
            assert(items@.take(i + 1).last() == items@[i as int]);
            assert(string_views(lines@) =~= report_lines_of(
                width,
                items@.take(i + 1),
                headers,
                key_color,
                value_color,
            ));
        }
        i += 1;
    }
    proof {
        assert(items@.take(n as int) =~= items@);
    }
    lines
}

/// A finished report: the prepared modules and the final lines.
#[derive(Debug)]
pub struct Report {
    pub items: Vec<ModuleRender>,
    pub lines: Vec<String>,
}

/// Runs the whole report: each matched module rendered at the theme's
/// fraction of the console width, then every line re-justified at the full
/// console width by the alignment setting. Fails exactly when a matched
/// module's icon text names no Unicode character.
pub fn run_report(config: &Config, registry: &Vec<ProviderEntry>, console: u32) -> (r: Result<
    Report,
    IconError,
>)
    requires
        config.wf(),
        forall|i: int| 0 <= i < registry@.len() ==> (#[trigger] registry@[i].provider).wf(),
    ensures
        r is Ok <==> (forall|k: int|
            0 <= k < matched_modules(config.modules@, registry@).len() ==> valid_icon_text(
                #[trigger] matched_modules(config.modules@, registry@)[k].icon@,
            )),
        r matches Ok(rep) ==> {
            &&& rep.items@.len() == matched_modules(config.modules@, registry@).len()
            &&& (forall|k: int|
                0 <= k < rep.items@.len() ==> item_matches(
                    #[trigger] rep.items@[k],
                    matched_modules(config.modules@, registry@)[k],
                    registry@,
                ))
            &&& string_views(rep.lines@) == report_lines_of(
                ((console * config.theme.width_permille) / 1000) as u32,
                rep.items@,
                config.theme.headers,
                config.theme.text_key,
                config.theme.text_value,
            ).map_values(aligned_line_of(config.theme.align, console))
        },
        r matches Err(e) ==> exists|k: int|
            0 <= k < matched_modules(config.modules@, registry@).len() && !valid_icon_text(
                #[trigger] matched_modules(config.modules@, registry@)[k].icon@,
            ) && e.icon@ == matched_modules(config.modules@, registry@)[k].icon@,
{
    match prepare_modules(config, registry) {
        Ok(items) => {
            proof {
                assert forall|k: int|
                    0 <= k < items@.len() implies is_scalar_value(
                    (#[trigger] items@[k]).icon as nat,
                ) by {
                    assert(item_matches(
                        items@[k],
                        matched_modules(config.modules@, registry@)[k],
                        registry@,
                    ));
                }
            }
            let mw = module_width(console, config.theme.width_permille);
            let lines = render_lines(
                mw,
                &items,
                config.theme.headers,
                config.theme.text_key,
                config.theme.text_value,
            );
            let out = align_lines(&lines, config.theme.align, console);
            Ok(Report { items, lines: out })
        },
        Err(e) => Err(e),
    }
}

} // verus!
