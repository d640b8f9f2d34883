//! Disk space: which filesystems count, and their usage.

use crate::sensors::network::{format_bytes, human_bytes, sat_sub};
use crate::text::{begins_with, chars_of, is_text};
use vstd::prelude::*;

verus! {

/// Whether a filesystem is left out of the disk figures: loop, overlay and
/// temporary filesystems, and snap and Docker mounts.
pub open spec fn is_excluded_disk(fs: Seq<char>, mount: Seq<char>) -> bool {
    ||| fs == "squashfs"@
    ||| fs == "tmpfs"@
    ||| fs == "devtmpfs"@
    ||| fs == "overlay"@
    ||| fs == "efivarfs"@
    ||| "/snap"@.is_prefix_of(mount)
    ||| "/var/lib/docker"@.is_prefix_of(mount)
}

/// Whether a filesystem is left out of the disk figures.
pub fn is_excluded(file_system: &str, mount_point: &str) -> (b: bool)
    ensures
        b == is_excluded_disk(file_system@, mount_point@),
        file_system@ == "squashfs"@ || file_system@ == "tmpfs"@ || file_system@ == "devtmpfs"@
            || file_system@ == "overlay"@ || file_system@ == "efivarfs"@ ==> b,
        "/snap"@.is_prefix_of(mount_point@) || "/var/lib/docker"@.is_prefix_of(mount_point@) ==> b,
{
    let fs = chars_of(file_system);
    let m = chars_of(mount_point);
    is_text(fs.as_slice(), "squashfs") || is_text(fs.as_slice(), "tmpfs") || is_text(
        fs.as_slice(),
        "devtmpfs",
    ) || is_text(fs.as_slice(), "overlay") || is_text(fs.as_slice(), "efivarfs") || begins_with(
        m.as_slice(),
        "/snap",
    ) || begins_with(m.as_slice(), "/var/lib/docker")
}

/// Loop, overlay and temporary filesystems are left out wherever they are
/// mounted, and so is anything mounted under `/snap` or `/var/lib/docker`.
pub proof fn law_pseudo_filesystems_excluded(fs: Seq<char>, mount: Seq<char>)
    ensures
        fs == "squashfs"@ || fs == "tmpfs"@ || fs == "devtmpfs"@ || fs == "overlay"@ || fs
            == "efivarfs"@ ==> is_excluded_disk(fs, mount),
        "/snap"@.is_prefix_of(mount) || "/var/lib/docker"@.is_prefix_of(mount) ==> is_excluded_disk(
            fs,
            mount,
        ),
{
}

/// No filesystem that is counted is a loop, overlay or temporary one, or
/// mounted under `/snap` or `/var/lib/docker`; and every other one is counted.
pub proof fn law_counted_filesystems(s: Seq<DiskSample>)
    ensures
        forall|i: int|
            0 <= i < counted(s).len() ==> {
                let x = #[trigger] counted(s)[i];
                &&& x.file_system@ != "squashfs"@
                &&& x.file_system@ != "tmpfs"@
                &&& x.file_system@ != "devtmpfs"@
                &&& x.file_system@ != "overlay"@
                &&& x.file_system@ != "efivarfs"@
                &&& !"/snap"@.is_prefix_of(x.mount_point@)
                &&& !"/var/lib/docker"@.is_prefix_of(x.mount_point@)
            },
    decreases s.len(),
{
    if s.len() > 0 {
        law_counted_filesystems(s.drop_last());
        let p = counted(s.drop_last());
        assert forall|i: int| 0 <= i < counted(s).len() implies {
            let x = #[trigger] counted(s)[i];
            &&& x.file_system@ != "squashfs"@
            &&& x.file_system@ != "tmpfs"@
            &&& x.file_system@ != "devtmpfs"@
            &&& x.file_system@ != "overlay"@
            &&& x.file_system@ != "efivarfs"@
            &&& !"/snap"@.is_prefix_of(x.mount_point@)
            &&& !"/var/lib/docker"@.is_prefix_of(x.mount_point@)
        } by {
            if i < p.len() {
                assert(counted(s)[i] == p[i]);
            }
        }
    }
}

/// A mounted filesystem as the system reports it.
#[derive(Clone, Debug)]
pub struct DiskSample {
    pub name: String,
    pub mount_point: String,
    pub file_system: String,
    pub total_bytes: u64,
    pub available_bytes: u64,
}

/// A filesystem's space, in bytes and human-readable.
#[derive(Clone, Debug)]
pub struct DiskUsage {
    pub name: String,
    pub mount_point: String,
    pub file_system: String,
    pub total_bytes: u64,
    pub used_bytes: u64,
    pub available_bytes: u64,
    pub total_human: String,
    pub used_human: String,
    pub available_human: String,
}

/// The space of the counted filesystems, one by one and together.
#[derive(Clone, Debug)]
pub struct DiskSummary {
    pub disks: Vec<DiskUsage>,
    pub total_bytes: u64,
    pub used_bytes: u64,
    pub available_bytes: u64,
    pub total_human: String,
    pub used_human: String,
    pub available_human: String,
}

/// The filesystems that count, in order.
pub open spec fn counted(s: Seq<DiskSample>) -> Seq<DiskSample>
    decreases s.len(),
{
    if s.len() == 0 {
        seq![]
    } else {
        let prev = counted(s.drop_last());
        let x = s.last();
        if is_excluded_disk(x.file_system@, x.mount_point@) {
            prev
        } else {
            prev.push(x)
        }
    }
}

/// The total (`total` true) or available space of `s`, summed.
pub open spec fn space_sum(s: Seq<DiskSample>, total: bool) -> nat
    decreases s.len(),
{
    if s.len() == 0 {
        0
    } else {
        space_sum(s.drop_last(), total) + (if total {
            s.last().total_bytes
        } else {
            s.last().available_bytes
        }) as nat
    }
}

/// `u` reports filesystem `x`: used space is total less available (none
/// when more is available than the total).
pub open spec fn usage_is(u: DiskUsage, x: DiskSample) -> bool {
    let used = sat_sub(x.total_bytes, x.available_bytes);
    &&& u.name@ == x.name@
    &&& u.mount_point@ == x.mount_point@
    &&& u.file_system@ == x.file_system@
    &&& u.total_bytes == x.total_bytes
    &&& u.available_bytes == x.available_bytes
    &&& u.used_bytes == used
    &&& u.total_human@ == human_bytes(x.total_bytes as nat)
    &&& u.used_human@ == human_bytes(used as nat)
    &&& u.available_human@ == human_bytes(x.available_bytes as nat)
}

proof fn lemma_space_sum_prefix(s: Seq<DiskSample>, i: int, total: bool)
    requires
        0 <= i <= s.len(),
    ensures
        space_sum(s.take(i), total) <= space_sum(s, total),
    decreases s.len() - i,
{
    if i < s.len() {
        assert(s.drop_last().take(i) =~= s.take(i));
        lemma_space_sum_prefix(s.drop_last(), i, total);
        assert(s.take(s.len() as int) =~= s);
    } else {
        assert(s.take(i) =~= s);
    }
}

proof fn lemma_counted_prefix(s: Seq<DiskSample>, i: int)
    requires
        0 <= i < s.len(),
    ensures
        counted(s.take(i + 1)) == if is_excluded_disk(s[i].file_system@, s[i].mount_point@) {
            counted(s.take(i))
        } else {
            counted(s.take(i)).push(s[i])
        },
{
    assert(s.take(i + 1).drop_last() =~= s.take(i));
}

/// The space of the filesystems that count: each one's total, used and
/// available space, and the same summed over all of them (used being the
/// summed total less the summed available space).
pub fn summarize_disks(samples: &Vec<DiskSample>) -> (r: DiskSummary)
    requires
        space_sum(counted(samples@), true) <= u64::MAX,
        space_sum(counted(samples@), false) <= u64::MAX,
    ensures
        r.disks@.len() == counted(samples@).len(),
        forall|i: int|
            0 <= i < r.disks@.len() ==> usage_is(#[trigger] r.disks@[i], counted(samples@)[i]),
        r.total_bytes == space_sum(counted(samples@), true),
        r.available_bytes == space_sum(counted(samples@), false),
        r.used_bytes == sat_sub(r.total_bytes, r.available_bytes),
        r.total_human@ == human_bytes(r.total_bytes as nat),
        r.used_human@ == human_bytes(r.used_bytes as nat),
        r.available_human@ == human_bytes(r.available_bytes as nat),
{
    let mut disks: Vec<DiskUsage> = Vec::new();
    let mut total: u64 = 0;
    let mut avail: u64 = 0;
    let ghost all = counted(samples@);
    for i in 0..samples.len()
        invariant
            all == counted(samples@),
            space_sum(all, true) <= u64::MAX,
            space_sum(all, false) <= u64::MAX,
            disks@.len() == counted(samples@.take(i as int)).len(),
            counted(samples@.take(i as int)).is_prefix_of(all),
            forall|k: int|
                0 <= k < disks@.len() ==> usage_is(
                    #[trigger] disks@[k],
                    counted(samples@.take(i as int))[k],
                ),
            total == space_sum(counted(samples@.take(i as int)), true),
            avail == space_sum(counted(samples@.take(i as int)), false),
    {
        let ghost c = counted(samples@.take(i as int));
        proof {
            lemma_counted_prefix(samples@, i as int);
        }
        let x = &samples[i];
        if !is_excluded(x.file_system.as_str(), x.mount_point.as_str()) {
            proof {
                let c2 = c.push(samples@[i as int]);
                lemma_counted_is_prefix(samples@, i + 1);
                assert(c2.drop_last() =~= c);
                lemma_space_sum_prefix(all, c2.len() as int, true);
                lemma_space_sum_prefix(all, c2.len() as int, false);
                assert(all.take(c2.len() as int) =~= c2);
            }
            let used = x.total_bytes.saturating_sub(x.available_bytes);
            total = total + x.total_bytes;
            avail = avail + x.available_bytes;
            disks.push(
                DiskUsage {
                    name: x.name.clone(),
                    mount_point: x.mount_point.clone(),
                    file_system: x.file_system.clone(),
                    total_bytes: x.total_bytes,
                    used_bytes: used,
                    available_bytes: x.available_bytes,
                    total_human: format_bytes(x.total_bytes),
                    used_human: format_bytes(used),
                    available_human: format_bytes(x.available_bytes),
                },
            );
        } else {
            proof {
                lemma_counted_is_prefix(samples@, i + 1);
            }
        }
    }
    proof {
        assert(samples@.take(samples@.len() as int) =~= samples@);
    }
    let used_all = total.saturating_sub(avail);
    DiskSummary {
        disks,
        total_bytes: total,
        used_bytes: used_all,
        available_bytes: avail,
        total_human: format_bytes(total),
        used_human: format_bytes(used_all),
        available_human: format_bytes(avail),
    }
}

proof fn lemma_counted_is_prefix(s: Seq<DiskSample>, i: int)
    requires
        0 <= i <= s.len(),
    ensures
        counted(s.take(i)).is_prefix_of(counted(s)),
    decreases s.len() - i,
{
    if i < s.len() {
        let d = s.drop_last();
        assert(d.take(i) =~= s.take(i));
        lemma_counted_is_prefix(d, i);
        assert(counted(d).is_prefix_of(counted(s)));
    } else {
        assert(s.take(i) =~= s);
    }
}

/// Whether the space of the counted filesystems can be summed in `u64`s.
pub fn counters_fit(samples: &Vec<DiskSample>) -> (b: bool)
    ensures
        b == (space_sum(counted(samples@), true) <= u64::MAX && space_sum(
            counted(samples@),
            false,
        ) <= u64::MAX),
{
    let mut total: u64 = 0;
    let mut avail: u64 = 0;
    let ghost all = counted(samples@);
    for i in 0..samples.len()
        invariant
            all == counted(samples@),
            counted(samples@.take(i as int)).is_prefix_of(all),
            total == space_sum(counted(samples@.take(i as int)), true),
            avail == space_sum(counted(samples@.take(i as int)), false),
    {
        let ghost c = counted(samples@.take(i as int));
        proof {
            lemma_counted_prefix(samples@, i as int);
            lemma_counted_is_prefix(samples@, i + 1);
        }
        let x = &samples[i];
        if !is_excluded(x.file_system.as_str(), x.mount_point.as_str()) {
            let ghost c2 = c.push(samples@[i as int]);
            proof {
                assert(c2.drop_last() =~= c);
                lemma_space_sum_prefix(all, c2.len() as int, true);
                lemma_space_sum_prefix(all, c2.len() as int, false);
                assert(all.take(c2.len() as int) =~= c2);
            }
            if total > u64::MAX - x.total_bytes || avail > u64::MAX - x.available_bytes {
                return false;
            }
            total = total + x.total_bytes;
            avail = avail + x.available_bytes;
        }
    }
    proof {
        assert(samples@.take(samples@.len() as int) =~= samples@);
    }
    true
}

} // verus!
