//! The provider registry: one tagged variant per stat provider, each with
//! the same handle contract, dispatched by configured module name.

use vstd::prelude::*;
use crate::numtext::string_views;
use crate::stat::{StatPair, pair_views};
use crate::modules::battery::{Battery, battery_rows};
use crate::modules::cpu::{Cpu, cpu_rows};
use crate::modules::disks::{Disk, disk_rows};
use crate::modules::memory::{Memory, memory_rows};

verus! {

/// One stat provider.
pub enum Provider {
    Cpu(Cpu),
    Memory(Memory),
    Disk(Disk),
    Battery(Battery),
}

/// The rows a provider yields for a list of requested stat names.
pub open spec fn provider_rows(p: Provider, names: Seq<Seq<char>>) -> Seq<(Seq<char>, Seq<char>)> {
    match p {
        Provider::Cpu(c) => cpu_rows(c, names),
        Provider::Memory(m) => memory_rows(m, names),
        Provider::Disk(d) => disk_rows(d.disks@, names),
        Provider::Battery(b) => if b.present {
            battery_rows(b, names)
        } else {
            seq![(Seq::<char>::empty(), Seq::<char>::empty())]
        },
    }
}

impl Provider {
    /// Well-formed: the memory snapshot's readings are consistent.
    pub open spec fn wf(&self) -> bool {
        match self {
            Provider::Memory(m) => m.wf(),
            _ => true,
        }
    }

    /// The provider's rows for the requested stat names, in request order.
    pub fn handle(&self, stats: &Vec<String>) -> (r: Vec<StatPair>)
        requires
            self.wf(),
        ensures
            pair_views(r@) == provider_rows(*self, string_views(stats@)),
    {
        match self {
            Provider::Cpu(c) => c.handle(stats),
            Provider::Memory(m) => m.handle(stats),
            Provider::Disk(d) => d.handle(stats),
            Provider::Battery(b) => b.handle(stats),
        }
    }
}

/// One registry binding: a module name and its provider.
pub struct ProviderEntry {
    pub name: String,
    pub provider: Provider,
}

/// The position of the first registry entry with the given name, or the
/// registry's length when none carries it.
pub open spec fn find_provider_at(reg: Seq<ProviderEntry>, name: Seq<char>, i: int) -> int
    decreases reg.len() - i,
{
    if i < 0 || i >= reg.len() {
        reg.len() as int
    } else if reg[i].name@ == name {
        i
    } else {
        find_provider_at(reg, name, i + 1)
    }
}

pub proof fn lemma_find_provider(reg: Seq<ProviderEntry>, name: Seq<char>, i: int, k: int)
    requires
        0 <= i <= k <= reg.len(),
        forall|j: int| i <= j < k ==> #[trigger] reg[j].name@ != name,
        k < reg.len() ==> reg[k].name@ == name,
    ensures
        find_provider_at(reg, name, i) == k,
    decreases k - i,
{
    if i < reg.len() && reg[i].name@ != name {
        lemma_find_provider(reg, name, i + 1, k);
    }
}

/// Finds the first registry entry with the given name.
pub fn lookup_provider<'a>(registry: &'a Vec<ProviderEntry>, name: &str) -> (r: Option<
    &'a ProviderEntry,
>)
    ensures
        match r {
            Some(e) => 0 <= find_provider_at(registry@, name@, 0) < registry@.len() && *e
                == registry@[find_provider_at(registry@, name@, 0)],
            None => find_provider_at(registry@, name@, 0) == registry@.len(),
        },
{
    let n = registry.len();
    let mut i: usize = 0;
    while i < n
        invariant
            i <= n,
            n == registry@.len(),
            forall|j: int| 0 <= j < i ==> #[trigger] registry@[j].name@ != name@,
        decreases n - i,
    {
        let entry = &registry[i];
        if crate::numtext::str_eq(entry.name.as_str(), name) {
            proof {
                lemma_find_provider(registry@, name@, 0, i as int);
            }
            return Some(entry);
        }
        i += 1;
    }
    proof {
        lemma_find_provider(registry@, name@, 0, n as int);
    }
    None
}

} // verus!
