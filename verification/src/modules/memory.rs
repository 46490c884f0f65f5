//! The memory provider: RAM and swap readings formatted in binary
//! gigabytes with one decimal place, and the used fraction as a
//! percentage.

use vstd::prelude::*;
use crate::numtext::{tenths_digits, tenths_to_string, str_eq, string_views};
use crate::stat::{StatPair, pair_views};
use crate::modules::sysread::{
    sys_new, sys_refresh_memory, sys_total_memory, sys_used_memory, sys_total_swap, sys_used_swap,
};

verus! {

/// A binary byte-count unit.
pub enum MemoryUnit {
    B,
    KB,
    MB,
    GB,
}

impl MemoryUnit {
    /// The unit's display label.
    pub fn to_string(&self) -> (r: String)
        ensures
            self is B ==> r@ == "B"@,
            self is KB ==> r@ == "KB"@,
            self is MB ==> r@ == "MB"@,
            self is GB ==> r@ == "GB"@,
    {
        match self {
            MemoryUnit::B => String::from_str("B"),
            MemoryUnit::KB => String::from_str("KB"),
            MemoryUnit::MB => String::from_str("MB"),
            MemoryUnit::GB => String::from_str("GB"),
        }
    }

    /// The unit's size in bytes.
    pub fn to_u64(&self) -> (r: u64)
        ensures
            self is B ==> r == 1,
            self is KB ==> r == 1024,
            self is MB ==> r == 1048576,
            self is GB ==> r == 1073741824,
    {
        match self {
            MemoryUnit::B => 1,
            MemoryUnit::KB => 1024,
            MemoryUnit::MB => 1024 * 1024,
            MemoryUnit::GB => 1024 * 1024 * 1024,
        }
    }
}

/// A byte count in tenths of binary gigabytes, rounded to the nearest
/// tenth, half upward.
pub open spec fn gib_tenths(bytes: nat) -> nat {
    (bytes * 10 + 536870912) / 1073741824
}

/// A byte count rendered in binary gigabytes with one decimal place.
pub open spec fn gib_label(bytes: nat) -> Seq<char> {
    tenths_digits(gib_tenths(bytes)) + seq![' ', 'G', 'B']
}

/// `used` out of `total` in tenths of a percent, rounded to the nearest
/// tenth, half upward; zero when the total is zero.
pub open spec fn percent_tenths(used: nat, total: nat) -> nat {
    if total == 0 {
        0
    } else {
        (used * 1000 + total / 2) / total
    }
}

/// `used` out of `total` rendered as a percentage with one decimal place.
pub open spec fn percent_label(used: nat, total: nat) -> Seq<char> {
    tenths_digits(percent_tenths(used, total)) + seq!['%']
}

/// Renders a byte count in binary gigabytes with one decimal place.
pub fn gib_string(bytes: u64) -> (r: String)
    ensures
        r@ == gib_label(bytes as nat),
{
    let t: u128 = ((bytes as u128) * 10 + 536870912) / 1073741824;
    proof {
        assert(((bytes as int) * 10 + 536870912) / 1073741824 < 0x10000000000000000)
            by (nonlinear_arith)
            requires
                (bytes as int) < 0x10000000000000000;
    }
    let s = tenths_to_string(t as u64);
    let s = s.concat(" GB");
    proof {
        reveal_strlit(" GB");
        assert(s@ =~= gib_label(bytes as nat));
    }
    s
}

/// Renders `used` out of `total` as a percentage with one decimal place.
pub fn percent_string(used: u64, total: u64) -> (r: String)
    requires
        used <= total,
    ensures
        r@ == percent_label(used as nat, total as nat),
{
    let t: u64 = if total == 0 {
        0
    } else {
        let t128: u128 = ((used as u128) * 1000 + (total as u128) / 2) / (total as u128);
        proof {
            assert(((used as int) * 1000 + (total as int) / 2) / (total as int) <= 1000)
                by (nonlinear_arith)
                requires
                    (used as int) <= (total as int),
                    (total as int) >= 1;
        }
        t128 as u64
    };
    let s = tenths_to_string(t);
    let s = s.concat("%");
    proof {
        reveal_strlit("%");
        assert(s@ =~= percent_label(used as nat, total as nat));
    }
    s
}

/// A snapshot of the memory readings, in bytes.
pub struct Memory {
    pub total: u64,
    pub used: u64,
    pub swap_total: u64,
    pub swap_used: u64,
}

/// Free RAM: the total less what is used.
pub open spec fn free_bytes(m: Memory) -> nat {
    (m.total - m.used) as nat
}

/// Available RAM: the total less what is used and less the swap total,
/// saturating at zero.
pub open spec fn avail_bytes(m: Memory) -> nat {
    if m.total >= m.used + m.swap_total {
        (m.total - m.used - m.swap_total) as nat
    } else {
        0
    }
}

/// Free swap: the swap total less what is used.
pub open spec fn swap_free_bytes(m: Memory) -> nat {
    (m.swap_total - m.swap_used) as nat
}

/// The display value of one memory stat name; an unknown name reads as an
/// empty value.
pub open spec fn memory_stat_value(m: Memory, name: Seq<char>) -> Seq<char> {
    if name == "total"@ {
        gib_label(m.total as nat)
    } else if name == "used"@ {
        gib_label(m.used as nat)
    } else if name == "free"@ {
        gib_label(free_bytes(m))
    } else if name == "available"@ {
        gib_label(avail_bytes(m))
    } else if name == "swap_total"@ {
        gib_label(m.swap_total as nat)
    } else if name == "swap_used"@ {
        gib_label(m.swap_used as nat)
    } else if name == "swap_free"@ {
        gib_label(swap_free_bytes(m))
    } else if name == "percent"@ {
        percent_label(m.used as nat, m.total as nat)
    } else {
        Seq::<char>::empty()
    }
}

/// One row per requested stat name, in request order.
pub open spec fn memory_rows(m: Memory, names: Seq<Seq<char>>) -> Seq<(Seq<char>, Seq<char>)> {
    names.map_values(|n: Seq<char>| (n, memory_stat_value(m, n)))
}

impl Memory {
    /// Well-formed: no used reading exceeds its total.
    pub open spec fn wf(&self) -> bool {
        self.used <= self.total && self.swap_used <= self.swap_total
    }

    /// Takes a fresh memory snapshot. The underlying readings depend on the
    /// machine; a used reading above its total is clamped to the total.
    pub fn new() -> (m: Memory)
        ensures
            m.wf(),
    {
        let mut s = sys_new();
        sys_refresh_memory(&mut s);
        let total = sys_total_memory(&s);
        let used_raw = sys_used_memory(&s);
        let swap_total = sys_total_swap(&s);
        let swap_used_raw = sys_used_swap(&s);
        Memory {
            total,
            used: if used_raw <= total {
                used_raw
            } else {
                total
            },
            swap_total,
            swap_used: if swap_used_raw <= swap_total {
                swap_used_raw
            } else {
                swap_total
            },
        }
    }

    /// The display value of one stat name.
    pub fn stat_value(&self, name: &str) -> (r: String)
        requires
            self.wf(),
        ensures
            r@ == memory_stat_value(*self, name@),
    {
        if str_eq(name, "total") {
            gib_string(self.total)
        } else if str_eq(name, "used") {
            gib_string(self.used)
        } else if str_eq(name, "free") {
            gib_string(self.total - self.used)
        } else if str_eq(name, "available") {
            if self.swap_total <= self.total - self.used {
                gib_string(self.total - self.used - self.swap_total)
            } else {
                gib_string(0)
            }
        } else if str_eq(name, "swap_total") {
            gib_string(self.swap_total)
        } else if str_eq(name, "swap_used") {
            gib_string(self.swap_used)
        } else if str_eq(name, "swap_free") {
            gib_string(self.swap_total - self.swap_used)
        } else if str_eq(name, "percent") {
            percent_string(self.used, self.total)
        } else {
            String::new()
        }
    }

    /// One row per requested stat name, in request order: the name paired
    /// with its formatted value, an empty value for an unknown name.
    pub fn handle(&self, stats: &Vec<String>) -> (r: Vec<StatPair>)
        requires
            self.wf(),
        ensures
            pair_views(r@) == memory_rows(*self, string_views(stats@)),
            r@.len() == stats@.len(),
    {
        let ghost names = string_views(stats@);
        let mut rows: Vec<StatPair> = Vec::new();
        let n = stats.len();
        let mut i: usize = 0;
        while i < n
            invariant
                i <= n,
                n == stats@.len(),
                names == string_views(stats@),
                names.len() == n,
                self.wf(),
                rows@.len() == i,
                pair_views(rows@) =~= memory_rows(*self, names.take(i as int)),
            decreases n - i,
        {
            let ghost prev = rows@;
            let stat = &stats[i];
            proof {
                assert(names[i as int] == stat@);
            }
            let value = self.stat_value(stat.as_str());
            rows.push(StatPair { key: stat.clone(), value });
            proof {
                assert forall|j: int| 0 <= j < i + 1 implies #[trigger] pair_views(rows@)[j]
                    == memory_rows(*self, names.take(i + 1))[j] by {
                    assert(pair_views(rows@)[j] == (rows@[j].key@, rows@[j].value@));
                    assert(names.take(i + 1)[j] == names[j]);
                    assert(memory_rows(*self, names.take(i + 1))[j] == (
                        names[j],
                        memory_stat_value(*self, names[j]),
                    ));
                    if j < i {
                        assert(rows@[j] == prev[j]);
                        assert(pair_views(prev)[j] == (prev[j].key@, prev[j].value@));
                        assert(names.take(i as int)[j] == names[j]);
                        assert(memory_rows(*self, names.take(i as int))[j] == (
                            names[j],
                            memory_stat_value(*self, names[j]),
                        ));
                        assert(pair_views(prev)[j] == memory_rows(*self, names.take(i as int))[j]);
                    }
                }
                assert(pair_views(rows@) =~= memory_rows(*self, names.take(i + 1)));
            }
            i += 1;
        }
        proof {
            assert(names.take(n as int) =~= names);
        }
        rows
    }
}

} // verus!
