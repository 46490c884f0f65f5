//! The processor provider: a snapshot of plain processor readings and the
//! mapping from requested stat names to display values. An accurate usage
//! figure takes two refreshes a short pause apart, so the caller refreshes
//! the handle, pauses, refreshes again, and only then takes the snapshot.

use vstd::prelude::*;
use crate::numtext::{dec_digits, u64_to_string, trim_of, trim_ascii, str_eq, string_views};
use crate::stat::{StatPair, pair_views};
use crate::modules::sysread::{
    sys_cpu_brand, sys_cpu_vendor, sys_cpu_frequency, sys_cpu_thread_count,
    sys_physical_core_count, sys_cpu_arch, sys_global_cpu_usage_str,
};

verus! {

/// A snapshot of the processor readings.
pub struct Cpu {
    pub name: String,
    pub cores: u64,
    pub threads: u64,
    pub speed: u64,
    pub usage: String,
    pub vendor: String,
    pub arch: String,
}

/// The display value of one processor stat name; an unknown name reads as
/// an empty value.
pub open spec fn cpu_stat_value(c: Cpu, name: Seq<char>) -> Seq<char> {
    if name == "name"@ {
        c.name@
    } else if name == "cores"@ {
        dec_digits(c.cores as nat)
    } else if name == "threads"@ {
        dec_digits(c.threads as nat)
    } else if name == "speed"@ {
        dec_digits(c.speed as nat)
    } else if name == "usage"@ {
        c.usage@ + seq!['%']
    } else if name == "vendor"@ {
        c.vendor@
    } else if name == "architecture"@ {
        c.arch@
    } else {
        Seq::<char>::empty()
    }
}

/// One row per requested stat name, in request order.
pub open spec fn cpu_rows(c: Cpu, names: Seq<Seq<char>>) -> Seq<(Seq<char>, Seq<char>)> {
    names.map_values(|n: Seq<char>| (n, cpu_stat_value(c, n)))
}

impl Cpu {
    /// Builds a snapshot from plain readings: the brand is trimmed of
    /// surrounding blanks, and a missing physical core count reads as zero.
    pub fn from_readings(
        brand: String,
        cores: Option<usize>,
        threads: usize,
        speed: u64,
        usage: String,
        vendor: String,
        arch: String,
    ) -> (c: Cpu)
        ensures
            c.name@ == trim_of(brand@),
            c.cores == match cores {
                Some(n) => n as u64,
                None => 0u64,
            },
            c.threads == threads as u64,
            c.speed == speed,
            c.usage == usage,
            c.vendor == vendor,
            c.arch == arch,
    {
        Cpu {
            name: trim_ascii(brand.as_str()),
            cores: match cores {
                Some(n) => n as u64,
                None => 0,
            },
            threads: threads as u64,
            speed,
            usage,
            vendor,
            arch,
        }
    }

    /// Takes a processor snapshot from a refreshed handle. Every reading
    /// depends on the machine.
    pub fn from_system(s: &sysinfo::System) -> Cpu {
        Cpu::from_readings(
            sys_cpu_brand(s),
            sys_physical_core_count(),
            sys_cpu_thread_count(s),
            sys_cpu_frequency(s),
            sys_global_cpu_usage_str(s),
            sys_cpu_vendor(s),
            sys_cpu_arch(),
        )
    }

    /// The display value of one stat name.
    pub fn stat_value(&self, name: &str) -> (r: String)
        ensures
            r@ == cpu_stat_value(*self, name@),
    {
        if str_eq(name, "name") {
            self.name.clone()
        } else if str_eq(name, "cores") {
            u64_to_string(self.cores)
        } else if str_eq(name, "threads") {
            u64_to_string(self.threads)
        } else if str_eq(name, "speed") {
            u64_to_string(self.speed)
        } else if str_eq(name, "usage") {
            let r = self.usage.clone().concat("%");
            proof {
                reveal_strlit("%");
                assert(r@ =~= self.usage@ + seq!['%']);
            }
            r
        } else if str_eq(name, "vendor") {
            self.vendor.clone()
        } else if str_eq(name, "architecture") {
            self.arch.clone()
        } else {
            String::new()
        }
    }

    /// One row per requested stat name, in request order: the name paired
    /// with its formatted value, an empty value for an unknown name.
    pub fn handle(&self, stats: &Vec<String>) -> (r: Vec<StatPair>)
        ensures
            pair_views(r@) == cpu_rows(*self, string_views(stats@)),
            r@.len() == stats@.len(),
    {
        let ghost names = string_views(stats@);
        let mut rows: Vec<StatPair> = Vec::new();
        let n = stats.len();
        let mut i: usize = 0;
        while i < n
            invariant
                i <= n,
                n == stats@.len(),
                names == string_views(stats@),
                names.len() == n,
                rows@.len() == i,
                pair_views(rows@) =~= cpu_rows(*self, names.take(i as int)),
            decreases n - i,
        {
            let ghost prev = rows@;
            let stat = &stats[i];
            proof {
                assert(names[i as int] == stat@);
            }
            let value = self.stat_value(stat.as_str());
            rows.push(StatPair { key: stat.clone(), value });
            proof {
                assert forall|j: int| 0 <= j < i + 1 implies #[trigger] pair_views(rows@)[j]
                    == cpu_rows(*self, names.take(i + 1))[j] by {
                    assert(pair_views(rows@)[j] == (rows@[j].key@, rows@[j].value@));
                    assert(names.take(i + 1)[j] == names[j]);
                    assert(cpu_rows(*self, names.take(i + 1))[j] == (
                        names[j],
                        cpu_stat_value(*self, names[j]),
                    ));
                    if j < i {
                        assert(rows@[j] == prev[j]);
                        assert(pair_views(prev)[j] == (prev[j].key@, prev[j].value@));
                        assert(names.take(i as int)[j] == names[j]);
                        assert(cpu_rows(*self, names.take(i as int))[j] == (
                            names[j],
                            cpu_stat_value(*self, names[j]),
                        ));
                        assert(pair_views(prev)[j] == cpu_rows(*self, names.take(i as int))[j]);
                    }
                }
                assert(pair_views(rows@) =~= cpu_rows(*self, names.take(i + 1)));
            }
            i += 1;
        }
        proof {
            assert(names.take(n as int) =~= names);
        }
        rows
    }
}

} // verus!
