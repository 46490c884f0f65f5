//! The disk provider: one group of rows per mounted volume, each group one
//! row per requested stat followed by an empty separator row.

use vstd::prelude::*;
use crate::numtext::{dec_digits, u64_to_string, str_eq, string_views};
use crate::stat::{StatPair, pair_views};

verus! {

/// A binary byte-count unit.
pub enum DiskUnit {
    B,
    KB,
    MB,
    GB,
}

/// A drive technology label.
pub enum DiskType {
    HDD,
    SSD,
    NVME,
}

/// A drive activity label.
pub enum DiskState {
    Active,
    Inactive,
}

impl DiskUnit {
    /// The unit's display label.
    pub fn to_string(&self) -> (r: String)
        ensures
            self is B ==> r@ == "B"@,
            self is KB ==> r@ == "KB"@,
            self is MB ==> r@ == "MB"@,
            self is GB ==> r@ == "GB"@,
    {
        match self {
            DiskUnit::B => String::from_str("B"),
            DiskUnit::KB => String::from_str("KB"),
            DiskUnit::MB => String::from_str("MB"),
            DiskUnit::GB => String::from_str("GB"),
        }
    }

    /// The unit's size in bytes.
    pub fn to_u64(&self) -> (r: u64)
        ensures
            self is B ==> r == 1,
            self is KB ==> r == 1024,
            self is MB ==> r == 1048576,
            self is GB ==> r == 1073741824,
    {
        match self {
            DiskUnit::B => 1,
            DiskUnit::KB => 1024,
            DiskUnit::MB => 1024 * 1024,
            DiskUnit::GB => 1024 * 1024 * 1024,
        }
    }
}

impl DiskType {
    /// The label's display text.
    pub fn to_string(&self) -> (r: String)
        ensures
            self is HDD ==> r@ == "HDD"@,
            self is SSD ==> r@ == "SSD"@,
            self is NVME ==> r@ == "NVME"@,
    {
        match self {
            DiskType::HDD => String::from_str("HDD"),
            DiskType::SSD => String::from_str("SSD"),
            DiskType::NVME => String::from_str("NVME"),
        }
    }
}

impl DiskState {
    /// The label's display text.
    pub fn to_string(&self) -> (r: String)
        ensures
            self is Active ==> r@ == "Active"@,
            self is Inactive ==> r@ == "Inactive"@,
    {
        match self {
            DiskState::Active => String::from_str("Active"),
            DiskState::Inactive => String::from_str("Inactive"),
        }
    }
}

/// One mounted volume, as plain values.
pub struct DiskInfo {
    pub name: String,
    pub mount_point: String,
    pub file_system: String,
    pub total: u64,
    pub available: u64,
    pub removable: bool,
}

/// Bytes in use on a volume: the total less what is available, saturating
/// at zero.
pub open spec fn disk_used_bytes(d: DiskInfo) -> nat {
    if d.total >= d.available {
        (d.total - d.available) as nat
    } else {
        0
    }
}

/// The display value of one disk stat name for one volume; an unknown name
/// reads as an empty value.
pub open spec fn disk_stat_value(d: DiskInfo, name: Seq<char>) -> Seq<char> {
    if name == "name"@ {
        d.name@
    } else if name == "mount_point"@ {
        d.mount_point@
    } else if name == "file_system"@ {
        d.file_system@
    } else if name == "total"@ {
        dec_digits(d.total as nat)
    } else if name == "used"@ {
        dec_digits(disk_used_bytes(d))
    } else if name == "free"@ {
        dec_digits(d.available as nat)
    } else if name == "available"@ {
        dec_digits(d.available as nat)
    } else if name == "removable"@ {
        if d.removable {
            "true"@
        } else {
            "false"@
        }
    } else {
        Seq::<char>::empty()
    }
}

/// The row of one stat name for one volume.
pub open spec fn disk_value_row(d: DiskInfo) -> spec_fn(Seq<char>) -> (Seq<char>, Seq<char>) {
    |n: Seq<char>| (n, disk_stat_value(d, n))
}

/// The rows of one volume: one row per requested stat, then an empty
/// separator row that marks the next volume.
pub open spec fn disk_group_rows(d: DiskInfo, names: Seq<Seq<char>>) -> Seq<(Seq<char>, Seq<char>)> {
    names.map_values(disk_value_row(d)) + seq![(Seq::<char>::empty(), Seq::<char>::empty())]
}

/// The rows of a volume list: each volume's group in order.
pub open spec fn disk_rows(disks: Seq<DiskInfo>, names: Seq<Seq<char>>) -> Seq<
    (Seq<char>, Seq<char>),
>
    decreases disks.len(),
{
    if disks.len() == 0 {
        Seq::empty()
    } else {
        disk_rows(disks.drop_last(), names) + disk_group_rows(disks.last(), names)
    }
}

pub proof fn lemma_disk_rows_len(disks: Seq<DiskInfo>, names: Seq<Seq<char>>)
    ensures
        disk_rows(disks, names).len() == disks.len() * (names.len() + 1),
    decreases disks.len(),
{
    if disks.len() == 0 {
    } else {
        lemma_disk_rows_len(disks.drop_last(), names);
        assert(disks.len() * (names.len() + 1) == (disks.len() - 1) * (names.len() + 1) + (
        names.len() + 1)) by (nonlinear_arith);
    }
}

/// The mounted volumes, taken once at construction.
pub struct Disk {
    pub disks: Vec<DiskInfo>,
}

impl Disk {
    /// Takes a snapshot of the mounted volumes. The list depends on the
    /// machine.
    pub fn new() -> Disk {
        Disk { disks: disks_snapshot() }
    }

    /// The display value of one stat name for one volume.
    pub fn stat_value(d: &DiskInfo, name: &str) -> (r: String)
        ensures
            r@ == disk_stat_value(*d, name@),
    {
        if str_eq(name, "name") {
            d.name.clone()
        } else if str_eq(name, "mount_point") {
            d.mount_point.clone()
        } else if str_eq(name, "file_system") {
            d.file_system.clone()
        } else if str_eq(name, "total") {
            u64_to_string(d.total)
        } else if str_eq(name, "used") {
            u64_to_string(
                if d.total >= d.available {
                    d.total - d.available
                } else {
                    0
                },
            )
        } else if str_eq(name, "free") {
            u64_to_string(d.available)
        } else if str_eq(name, "available") {
            u64_to_string(d.available)
        } else if str_eq(name, "removable") {
            if d.removable {
                String::from_str("true")
            } else {
                String::from_str("false")
            }
        } else {
            String::new()
        }
    }

    /// For each mounted volume, one row per requested stat in request
    /// order, then an empty separator row: with N volumes and K requested
    /// stats the result holds N * (K + 1) rows.
    pub fn handle(&self, stats: &Vec<String>) -> (r: Vec<StatPair>)
        ensures
            pair_views(r@) == disk_rows(self.disks@, string_views(stats@)),
            r@.len() == self.disks@.len() * (stats@.len() + 1),
    {
        let ghost names = string_views(stats@);
        let mut rows: Vec<StatPair> = Vec::new();
        let nd = self.disks.len();
        let ns = stats.len();
        let mut i: usize = 0;
        while i < nd
            invariant
                i <= nd,
                nd == self.disks@.len(),
                ns == stats@.len(),
                names == string_views(stats@),
                names.len() == ns,
                pair_views(rows@) =~= disk_rows(self.disks@.take(i as int), names),
            decreases nd - i,
        {
            let disk = &self.disks[i];
            let ghost outer_prev = rows@;
            let mut j: usize = 0;
            while j < ns
                invariant
                    j <= ns,
                    ns == stats@.len(),
                    names == string_views(stats@),
                    names.len() == ns,
                    rows@.len() == outer_prev.len() + j,
                    pair_views(rows@) =~= pair_views(outer_prev) + names.take(j as int).map_values(
                        disk_value_row(*disk),
                    ),
                decreases ns - j,
            {
                let ghost prev = rows@;
                let stat = &stats[j];
                proof {
                    assert(names[j as int] == stat@);
                }
                let value = Disk::stat_value(disk, stat.as_str());
                rows.push(StatPair { key: stat.clone(), value });
                proof {
                    let g = disk_value_row(*disk);
                    assert forall|k: int| 0 <= k < rows@.len() implies #[trigger] pair_views(
                        rows@,
                    )[k] == (pair_views(outer_prev) + names.take(j + 1).map_values(g))[k] by {
                        assert(pair_views(rows@)[k] == (rows@[k].key@, rows@[k].value@));
                        if k < prev.len() {
                            assert(rows@[k] == prev[k]);
                            assert(pair_views(prev)[k] == (prev[k].key@, prev[k].value@));
                            if k >= outer_prev.len() {
                                assert(names.take(j as int).map_values(g)[k - outer_prev.len()]
                                    == g(names[k - outer_prev.len()]));
                                assert(names.take(j + 1).map_values(g)[k - outer_prev.len()] == g(
                                    names[k - outer_prev.len()],
                                ));
                            }
                        } else {
                            assert(rows@[k] == rows@.last());
                            assert(names.take(j + 1).map_values(g)[k - outer_prev.len()] == g(
                                names[j as int],
                            ));
                        }
                    }
                    assert(pair_views(rows@) =~= pair_views(outer_prev) + names.take(
                        j + 1,
                    ).map_values(g));
                }
                j += 1;
            }
            let ghost before_sep = rows@;
            rows.push(StatPair { key: String::new(), value: String::new() });
            proof {
                let g = disk_value_row(*disk);
                assert(names.take(ns as int) =~= names);
                assert(self.disks@.take(i + 1).drop_last() =~= self.disks@.take(i as int));
                assert(self.disks@.take(i + 1).last() == self.disks@[i as int]);
                assert forall|k: int| 0 <= k < rows@.len() implies #[trigger] pair_views(rows@)[k]
                    == disk_rows(self.disks@.take(i + 1), names)[k] by {
                    assert(disk_rows(self.disks@.take(i + 1), names) == disk_rows(
                        self.disks@.take(i as int),
                        names,
                    ) + disk_group_rows(self.disks@[i as int], names));
                    assert(pair_views(rows@)[k] == (rows@[k].key@, rows@[k].value@));
                    if k < before_sep.len() {
                        assert(rows@[k] == before_sep[k]);
                        assert(pair_views(before_sep)[k] == (before_sep[k].key@,
                        before_sep[k].value@));
                    } else {
                        assert(rows@[k] == rows@.last());
                    }
                }
                assert(pair_views(rows@) =~= disk_rows(self.disks@.take(i + 1), names));
            }
            i += 1;
        }
        proof {
            assert(self.disks@.take(nd as int) =~= self.disks@);
            lemma_disk_rows_len(self.disks@, names);
        }
        rows
    }
}

/// Relies on sysinfo::Disks::new_with_refreshed_list and the per-volume
/// accessors name, mount_point, file_system, total_space, available_space
/// and is_removable: each mounted volume's readings as plain values, in
/// list order. Non-Unicode names are read lossily.
#[verifier::external_body]
pub fn disks_snapshot() -> Vec<DiskInfo> {
    sysinfo::Disks::new_with_refreshed_list().list().iter().map(
        |d| DiskInfo {
            name: d.name().to_string_lossy().to_string(),
            mount_point: d.mount_point().to_string_lossy().to_string(),
            file_system: d.file_system().to_string_lossy().to_string(),
            total: d.total_space(),
            available: d.available_space(),
            removable: d.is_removable(),
        },
    ).collect()
}

} // verus!
