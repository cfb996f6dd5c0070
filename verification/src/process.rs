//! Per-tick classification of the OS process table into "apps" and
//! "background" processes.
//!
//! A process is an app when its memory use is above a fixed threshold; it is
//! background when it is not an app, shows CPU activity, and its lowercased
//! name avoids a fixed denylist of OS-service name fragments. A process can
//! fall in neither bucket; the two buckets never overlap.
use vstd::prelude::*;
use vstd::string::StrSliceExecFns;
use vstd::string::StringSliceAdditionalSpecFns;

use crate::text::contains_sub;
use crate::text::is_prefix_of;
use crate::text::is_substring_of;
use crate::text::lower_bytes;
use crate::text::starts_with;
use crate::text::to_lower;

verus! {

/// Memory above which a process counts as an app (20 MiB).
pub const APP_MEMORY_BYTES: u64 = 20971520;

/// CPU activity floor, in thousandths of a percent (0.01%).
pub const ACTIVE_CPU_MILLI: u32 = 10;

/// One OS process as sampled on a tick. CPU use is carried in thousandths of
/// a percent; memory in bytes; the display name as UTF-8 bytes.
pub struct ProcSample {
    pub name: Vec<u8>,
    pub pid: u32,
    pub cpu_milli: u32,
    pub memory: u64,
}

/// The two per-tick counters derived from the process table.
pub struct ProcessCounts {
    pub background: usize,
    pub apps: usize,
}

/// The lowercased name matches the denylist of OS-service name fragments.
pub open spec fn denied_name(lower: Seq<u8>) -> bool {
    ||| is_substring_of(lower, "system".spec_bytes())
    ||| is_substring_of(lower, "svc".spec_bytes())
    ||| is_substring_of(lower, "service".spec_bytes())
    ||| is_substring_of(lower, "runtime".spec_bytes())
    ||| is_prefix_of(lower, "ms".spec_bytes())
    ||| is_prefix_of(lower, "win".spec_bytes())
    ||| is_substring_of(lower, "registry".spec_bytes())
    ||| is_substring_of(lower, "fontdrvhost".spec_bytes())
    ||| is_substring_of(lower, "csrss".spec_bytes())
    ||| is_substring_of(lower, "smss".spec_bytes())
    ||| is_substring_of(lower, "wininit".spec_bytes())
    ||| is_substring_of(lower, "lsass".spec_bytes())
}

/// The process counts as an app: memory above the threshold.
pub open spec fn is_app(p: ProcSample) -> bool {
    p.memory > APP_MEMORY_BYTES
}

/// The process counts as background: not an app, CPU-active, and its
/// lowercased name passes the denylist.
pub open spec fn is_background(p: ProcSample) -> bool {
    &&& !is_app(p)
    &&& p.cpu_milli > ACTIVE_CPU_MILLI
    &&& !denied_name(lower_bytes(p.name@))
}

/// Number of app processes in the table.
pub open spec fn count_apps(t: Seq<ProcSample>) -> nat
    decreases t.len(),
{
    if t.len() == 0 {
        0
    } else {
        count_apps(t.drop_last()) + (if is_app(t.last()) {
            1nat
        } else {
            0nat
        })
    }
}

/// Number of background processes in the table.
pub open spec fn count_background(t: Seq<ProcSample>) -> nat
    decreases t.len(),
{
    if t.len() == 0 {
        0
    } else {
        count_background(t.drop_last()) + (if is_background(t.last()) {
            1nat
        } else {
            0nat
        })
    }
}

/// The lowercased name matches the denylist.
pub fn name_denied(lower: &Vec<u8>) -> (r: bool)
    ensures
        r == denied_name(lower@),
{
    let w0 = "system".as_bytes_vec();
    let w1 = "svc".as_bytes_vec();
    let w2 = "service".as_bytes_vec();
    let w3 = "runtime".as_bytes_vec();
    let w4 = "ms".as_bytes_vec();
    let w5 = "win".as_bytes_vec();
    let w6 = "registry".as_bytes_vec();
    let w7 = "fontdrvhost".as_bytes_vec();
    let w8 = "csrss".as_bytes_vec();
    let w9 = "smss".as_bytes_vec();
    let w10 = "wininit".as_bytes_vec();
    let w11 = "lsass".as_bytes_vec();
    contains_sub(lower, &w0) || contains_sub(lower, &w1) || contains_sub(lower, &w2)
        || contains_sub(lower, &w3) || starts_with(lower, &w4) || starts_with(lower, &w5)
        || contains_sub(lower, &w6) || contains_sub(lower, &w7) || contains_sub(lower, &w8)
        || contains_sub(lower, &w9) || contains_sub(lower, &w10) || contains_sub(lower, &w11)
}

/// Classify every process of the table once: apps by the memory threshold,
/// background by CPU activity and the name denylist. The two counters are
/// disjoint, so their sum never exceeds the table's size.
pub fn classify_processes(table: &Vec<ProcSample>) -> (r: ProcessCounts)
    ensures
        r.background == count_background(table@),
        r.apps == count_apps(table@),
        r.background + r.apps <= table@.len(),
{
    let mut background: usize = 0;
    let mut apps: usize = 0;
    let mut i: usize = 0;
    while i < table.len()
        invariant
            i <= table@.len(),
            background == count_background(table@.take(i as int)),
            apps == count_apps(table@.take(i as int)),
            background + apps <= i,
        decreases table@.len() - i,
    {
        let p = &table[i];
        if p.memory > APP_MEMORY_BYTES {
            apps += 1;
        } else if p.cpu_milli > ACTIVE_CPU_MILLI {
            let low = to_lower(&p.name);
            if !name_denied(&low) {
                background += 1;
            }
        }
        proof {
            assert(table@.take(i + 1).drop_last() =~= table@.take(i as int));
            assert(table@.take(i + 1).last() == table@[i as int]);
        }
        i += 1;
    }
    proof {
        assert(table@.take(table@.len() as int) =~= table@);
    }
    ProcessCounts { background, apps }
}

/// Total process count published on the wire: the sum of the two buckets.
pub fn total_count(c: &ProcessCounts) -> (r: usize)
    requires
        c.background + c.apps <= usize::MAX,
    ensures
        r == c.background + c.apps,
{
    c.background + c.apps
}

/// The two buckets never overlap: an app is never also counted as
/// background, so the published total counts no process twice.
pub proof fn lemma_buckets_disjoint(p: ProcSample)
    ensures
        !(is_app(p) && is_background(p)),
{
}

/// Classification is a pure function of the table: run again on an unchanged
/// table within the same tick, every process lands in the same bucket and the
/// counters agree.
pub proof fn lemma_classification_idempotent(t1: Seq<ProcSample>, t2: Seq<ProcSample>)
    requires
        t1 == t2,
    ensures
        forall|i: int|
            0 <= i < t1.len() ==> #[trigger] is_app(t1[i]) == is_app(t2[i]) && is_background(
                t1[i],
            ) == is_background(t2[i]),
        count_apps(t1) == count_apps(t2),
        count_background(t1) == count_background(t2),
{
}

} // verus!
