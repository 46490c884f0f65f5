//! The battery provider: charge, state, remaining time and energy readings
//! as plain values. A machine without a battery degrades to one empty row
//! rather than an error.

use vstd::prelude::*;
use battery::units::{energy, power, ratio};
use crate::numtext::{two_digit_digits, two_digit_string, str_eq, string_views};
use crate::stat::{StatPair, pair_views};

verus! {

/// A snapshot of the first battery, or the resting state when none is
/// found. Number-like readings are held pre-rendered with one decimal
/// place; times are whole seconds.
pub struct Battery {
    pub present: bool,
    pub soc: String,
    pub charging: bool,
    pub state_label: String,
    pub time_full_secs: Option<u64>,
    pub time_empty_secs: Option<u64>,
    pub energy: String,
    pub energy_full: String,
    pub energy_full_design: String,
    pub energy_rate: String,
}

/// Relies on battery::Manager::new, Manager::batteries and the per-battery
/// accessors state_of_charge, state, time_to_full and time_to_empty: the
/// first battery's charge in percent with one decimal place, its state,
/// and its remaining times in whole seconds. `None` when no battery can be
/// read. The energy fields rest empty here.
#[verifier::external_body]
fn battery_levels() -> (r: Option<Battery>)
    ensures
        r matches Some(b) ==> b.present,
{
    let b = ::battery::Manager::new().ok()?.batteries().ok()?.next()?.ok()?;
    Some(Battery {
        present: true,
        soc: format!("{:.1}", b.state_of_charge().get::<ratio::percent>()),
        charging: matches!(b.state(), ::battery::State::Charging),
        state_label: b.state().to_string(),
        time_full_secs: b.time_to_full().map(|t| t.value as u64),
        time_empty_secs: b.time_to_empty().map(|t| t.value as u64),
        energy: String::new(),
        energy_full: String::new(),
        energy_full_design: String::new(),
        energy_rate: String::new(),
    })
}

/// Relies on battery::Manager::new, Manager::batteries and the per-battery
/// accessors energy, energy_full, energy_full_design and energy_rate: the
/// first battery's energies in watt-hours and its rate in watts, each with
/// one decimal place. `None` when no battery can be read.
#[verifier::external_body]
fn battery_energies() -> Option<(String, String, String, String)> {
    let b = ::battery::Manager::new().ok()?.batteries().ok()?.next()?.ok()?;
    Some((
        format!("{:.1}", b.energy().get::<energy::watt_hour>()),
        format!("{:.1}", b.energy_full().get::<energy::watt_hour>()),
        format!("{:.1}", b.energy_full_design().get::<energy::watt_hour>()),
        format!("{:.1}", b.energy_rate().get::<power::watt>()),
    ))
}

/// A whole count of seconds rendered `HH:MM`.
pub open spec fn hhmm_digits(secs: nat) -> Seq<char> {
    two_digit_digits(secs / 3600) + seq![':'] + two_digit_digits((secs % 3600) / 60)
}

/// An optional count of seconds rendered `HH:MM`, an unknown time as the
/// empty string.
pub open spec fn hhmm_opt(secs: Option<u64>) -> Seq<char> {
    match secs {
        Some(s) => hhmm_digits(s as nat),
        None => Seq::<char>::empty(),
    }
}

/// The charge display: the percentage and, while charging, a trailing
/// charging glyph.
pub open spec fn percent_display(b: Battery) -> Seq<char> {
    b.soc@ + seq!['%'] + if b.charging {
        "\u{f0e7} "@
    } else {
        Seq::<char>::empty()
    }
}

/// The display value of one battery stat name; an unknown name reads as an
/// empty value.
pub open spec fn battery_stat_value(b: Battery, name: Seq<char>) -> Seq<char> {
    if name == "percent"@ {
        percent_display(b)
    } else if name == "status"@ {
        b.state_label@
    } else if name == "time"@ {
        if b.state_label@ == "charging"@ {
            hhmm_opt(b.time_full_secs)
        } else {
            hhmm_opt(b.time_empty_secs)
        }
    } else if name == "energy"@ {
        b.energy@ + " Wh"@
    } else if name == "energy_full"@ {
        b.energy_full@ + " Wh"@
    } else if name == "energy_full_design"@ {
        b.energy_full_design@ + " Wh"@
    } else if name == "energy_rate"@ {
        b.energy_rate@ + " W"@
    } else {
        Seq::<char>::empty()
    }
}

/// One row per requested stat name, in request order.
pub open spec fn battery_rows(b: Battery, names: Seq<Seq<char>>) -> Seq<(Seq<char>, Seq<char>)> {
    names.map_values(|n: Seq<char>| (n, battery_stat_value(b, n)))
}

/// Renders an optional count of seconds as `HH:MM`, an unknown time as the
/// empty string.
fn hhmm_string(secs: &Option<u64>) -> (r: String)
    ensures
        r@ == hhmm_opt(*secs),
{
    match secs {
        Some(s) => {
            let hours = *s / 3600;
            let minutes = (*s % 3600) / 60;
            let r = two_digit_string(hours);
            let r = r.concat(":");
            let r = r.concat(two_digit_string(minutes).as_str());
            proof {
                reveal_strlit(":");
                assert(r@ =~= hhmm_digits(*s as nat));
            }
            r
        },
        None => String::new(),
    }
}

impl Battery {
    /// Reads the first battery into a snapshot; a machine without one gives
    /// the resting state. Every reading depends on the machine.
    pub fn new() -> (b: Battery)
        ensures
            !b.present ==> b.soc@ == Seq::<char>::empty() && !b.charging,
    {
        match battery_levels() {
            Some(mut b) => {
                match battery_energies() {
                    Some((energy, energy_full, energy_full_design, energy_rate)) => {
                        b.energy = energy;
                        b.energy_full = energy_full;
                        b.energy_full_design = energy_full_design;
                        b.energy_rate = energy_rate;
                    },
                    None => {},
                }
                b
            },
            None => Battery {
                present: false,
                soc: String::new(),
                charging: false,
                state_label: String::new(),
                time_full_secs: None,
                time_empty_secs: None,
                energy: String::new(),
                energy_full: String::new(),
                energy_full_design: String::new(),
                energy_rate: String::new(),
            },
        }
    }

    /// The charge percentage, with a trailing charging glyph while
    /// charging.
    pub fn percentage(&self) -> (r: String)
        ensures
            r@ == percent_display(*self),
    {
        let r = self.soc.clone();
        let r = r.concat("%");
        let r = if self.charging {
            r.concat("\u{f0e7} ")
        } else {
            r
        };
        proof {
            reveal_strlit("%");
            assert(r@ =~= percent_display(*self));
        }
        r
    }

    /// The battery state, as the underlying library names it.
    pub fn status(&self) -> (r: String)
        ensures
            r@ == self.state_label@,
    {
        self.state_label.clone()
    }

    /// Time until full, `HH:MM`, the empty string when unknown.
    pub fn time_to_full(&self) -> (r: String)
        ensures
            r@ == hhmm_opt(self.time_full_secs),
    {
        hhmm_string(&self.time_full_secs)
    }

    /// Time until empty, `HH:MM`, the empty string when unknown.
    pub fn time_to_empty(&self) -> (r: String)
        ensures
            r@ == hhmm_opt(self.time_empty_secs),
    {
        hhmm_string(&self.time_empty_secs)
    }

    /// The display value of one stat name.
    pub fn stat_value(&self, name: &str) -> (r: String)
        ensures
            r@ == battery_stat_value(*self, name@),
    {
        if str_eq(name, "percent") {
            self.percentage()
        } else if str_eq(name, "status") {
            self.status()
        } else if str_eq(name, "time") {
            if str_eq(self.state_label.as_str(), "charging") {
                self.time_to_full()
            } else {
                self.time_to_empty()
            }
        } else if str_eq(name, "energy") {
            let r = self.energy.clone().concat(" Wh");
            proof {
                assert(r@ =~= self.energy@ + " Wh"@);
            }
            r
        } else if str_eq(name, "energy_full") {
            let r = self.energy_full.clone().concat(" Wh");
            proof {
                assert(r@ =~= self.energy_full@ + " Wh"@);
            }
            r
        } else if str_eq(name, "energy_full_design") {
            let r = self.energy_full_design.clone().concat(" Wh");
            proof {
                assert(r@ =~= self.energy_full_design@ + " Wh"@);
            }
            r
        } else if str_eq(name, "energy_rate") {
            let r = self.energy_rate.clone().concat(" W");
            proof {
                assert(r@ =~= self.energy_rate@ + " W"@);
            }
            r
        } else {
            String::new()
        }
    }

    /// One row per requested stat name, in request order, when a battery
    /// is present; exactly one row of two empty strings when none is.
    pub fn handle(&self, stats: &Vec<String>) -> (r: Vec<StatPair>)
        ensures
            self.present ==> pair_views(r@) == battery_rows(*self, string_views(stats@))
                && r@.len() == stats@.len(),
            !self.present ==> pair_views(r@) == seq![
                (Seq::<char>::empty(), Seq::<char>::empty()),
            ] && r@.len() == 1,
    {
        if !self.present {
            let mut rows: Vec<StatPair> = Vec::new();
            rows.push(StatPair { key: String::new(), value: String::new() });
            proof {
                assert(pair_views(rows@) =~= seq![(Seq::<char>::empty(), Seq::<char>::empty())]);
            }
            return rows;
        }
        let ghost names = string_views(stats@);
        let mut rows: Vec<StatPair> = Vec::new();
        let n = stats.len();
        let mut i: usize = 0;
        while i < n
            invariant
                i <= n,
                n == stats@.len(),
                names == string_views(stats@),
                names.len() == n,
                rows@.len() == i,
                pair_views(rows@) =~= battery_rows(*self, names.take(i as int)),
            decreases n - i,
        {
            let ghost prev = rows@;
            let stat = &stats[i];
            proof {
                assert(names[i as int] == stat@);
            }
            let value = self.stat_value(stat.as_str());
            rows.push(StatPair { key: stat.clone(), value });
            proof {
                assert forall|j: int| 0 <= j < i + 1 implies #[trigger] pair_views(rows@)[j]
                    == battery_rows(*self, names.take(i + 1))[j] by {
                    assert(pair_views(rows@)[j] == (rows@[j].key@, rows@[j].value@));
                    assert(names.take(i + 1)[j] == names[j]);
                    assert(battery_rows(*self, names.take(i + 1))[j] == (
                        names[j],
                        battery_stat_value(*self, names[j]),
                    ));
                    if j < i {
                        assert(rows@[j] == prev[j]);
                        assert(pair_views(prev)[j] == (prev[j].key@, prev[j].value@));
                        assert(names.take(i as int)[j] == names[j]);
                        assert(battery_rows(*self, names.take(i as int))[j] == (
                            names[j],
                            battery_stat_value(*self, names[j]),
                        ));
                        assert(pair_views(prev)[j] == battery_rows(*self, names.take(i as int))[j]);
                    }
                }
                assert(pair_views(rows@) =~= battery_rows(*self, names.take(i + 1)));
            }
            i += 1;
        }
        proof {
            assert(names.take(n as int) =~= names);
        }
        rows
    }
}

} // verus!
