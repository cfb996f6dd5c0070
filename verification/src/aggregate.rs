//! Reduction of the raw per-process table to the ranked top view: filter to
//! CPU-active processes whose name is not system-like, group them by display
//! name (summing per-core-normalized CPU and memory, keeping the first PID),
//! sort the groups by CPU non-increasingly, and keep at most ten of them.
use vstd::prelude::*;
use vstd::multiset::Multiset;
use vstd::string::StrSliceExecFns;
use vstd::string::StringSliceAdditionalSpecFns;

use crate::process::ACTIVE_CPU_MILLI;
use crate::process::ProcSample;
use crate::text::bytes_eq;
use crate::text::contains_sub;
use crate::text::copy_bytes;
use crate::text::is_substring_of;
use crate::text::lower_bytes;
use crate::text::to_lower;

verus! {

/// Largest number of records the ranked view keeps.
pub const TOP_LIMIT: usize = 10;

/// One ranked group: a display name, the PID of the first process seen under
/// it, summed CPU in thousandths of a percent (each share first divided by
/// the core count), and summed memory in bytes.
pub struct ProcessRecord {
    pub name: Vec<u8>,
    pub pid: u32,
    pub cpu_milli: u64,
    pub memory: u64,
}

/// The process takes part in the ranking: CPU-active and its lowercased name
/// does not contain "system".
pub open spec fn ranked(p: ProcSample) -> bool {
    p.cpu_milli > ACTIVE_CPU_MILLI && !is_substring_of(
        lower_bytes(p.name@),
        "system".spec_bytes(),
    )
}

/// One process's CPU share: its CPU divided by the logical core count.
pub open spec fn cpu_share(p: ProcSample, cores: u32) -> nat {
    (p.cpu_milli as nat) / (cores as nat)
}

/// Names of the ranked groups, in order of first appearance.
pub open spec fn group_keys(t: Seq<ProcSample>) -> Seq<Seq<u8>>
    decreases t.len(),
{
    if t.len() == 0 {
        Seq::empty()
    } else {
        let pre = group_keys(t.drop_last());
        if ranked(t.last()) && !pre.contains(t.last().name@) {
            pre.push(t.last().name@)
        } else {
            pre
        }
    }
}

/// Summed CPU shares of the ranked processes named `name`.
pub open spec fn group_cpu(t: Seq<ProcSample>, name: Seq<u8>, cores: u32) -> nat
    decreases t.len(),
{
    if t.len() == 0 {
        0
    } else {
        group_cpu(t.drop_last(), name, cores) + (if ranked(t.last()) && t.last().name@ == name {
            cpu_share(t.last(), cores)
        } else {
            0nat
        })
    }
}

/// Summed memory of the ranked processes named `name`.
pub open spec fn group_memory(t: Seq<ProcSample>, name: Seq<u8>) -> nat
    decreases t.len(),
{
    if t.len() == 0 {
        0
    } else {
        group_memory(t.drop_last(), name) + (if ranked(t.last()) && t.last().name@ == name {
            t.last().memory as nat
        } else {
            0nat
        })
    }
}

/// PID of the first ranked process named `name`, if any.
pub open spec fn first_pid(t: Seq<ProcSample>, name: Seq<u8>) -> Option<u32>
    decreases t.len(),
{
    if t.len() == 0 {
        None
    } else {
        let pre = first_pid(t.drop_last(), name);
        if pre is Some {
            pre
        } else if ranked(t.last()) && t.last().name@ == name {
            Some(t.last().pid)
        } else {
            None
        }
    }
}

/// Total memory of the whole table; bounds every per-name memory sum.
pub open spec fn total_memory(t: Seq<ProcSample>) -> nat
    decreases t.len(),
{
    if t.len() == 0 {
        0
    } else {
        total_memory(t.drop_last()) + t.last().memory as nat
    }
}

/// `rs` is exactly the grouped view of `t`: one record per group key in
/// first-appearance order, carrying that group's sums and first PID.
pub open spec fn records_match(t: Seq<ProcSample>, cores: u32, rs: Seq<ProcessRecord>) -> bool {
    &&& rs.len() == group_keys(t).len()
    &&& forall|j: int|
        0 <= j < rs.len() ==> {
            &&& (#[trigger] rs[j]).name@ == group_keys(t)[j]
            &&& rs[j].cpu_milli == group_cpu(t, rs[j].name@, cores)
            &&& rs[j].memory == group_memory(t, rs[j].name@)
            &&& first_pid(t, rs[j].name@) == Some(rs[j].pid)
        }
}

/// Non-increasing CPU order.
pub open spec fn sorted_desc(s: Seq<ProcessRecord>) -> bool {
    forall|i: int, j: int| 0 <= i <= j < s.len() ==> s[i].cpu_milli >= s[j].cpu_milli
}

/// `r` is a correct ranked top view of `t`: the prefix, capped at
/// `TOP_LIMIT`, of some non-increasing ordering of the grouped view.
pub open spec fn ranking_of(t: Seq<ProcSample>, cores: u32, r: Seq<ProcessRecord>) -> bool {
    exists|full: Seq<ProcessRecord>|
        #![trigger full.to_multiset()]
        {
            &&& sorted_desc(full)
            &&& full.len() == group_keys(t).len()
            &&& exists|g: Seq<ProcessRecord>|
                #![trigger g.to_multiset()]
                records_match(t, cores, g) && full.to_multiset() == g.to_multiset()
            &&& r == if full.len() <= TOP_LIMIT {
                full
            } else {
                full.take(TOP_LIMIT as int)
            }
        }
}

proof fn lemma_push_facts(t: Seq<ProcSample>, p: ProcSample, name: Seq<u8>, cores: u32)
    ensures
        group_keys(t.push(p)) == (if ranked(p) && !group_keys(t).contains(p.name@) {
            group_keys(t).push(p.name@)
        } else {
            group_keys(t)
        }),
        group_cpu(t.push(p), name, cores) == group_cpu(t, name, cores) + (if ranked(p)
            && p.name@ == name {
            cpu_share(p, cores)
        } else {
            0nat
        }),
        group_memory(t.push(p), name) == group_memory(t, name) + (if ranked(p) && p.name@
            == name {
            p.memory as nat
        } else {
            0nat
        }),
        first_pid(t.push(p), name) == (if first_pid(t, name) is Some {
            first_pid(t, name)
        } else if ranked(p) && p.name@ == name {
            Some(p.pid)
        } else {
            None::<u32>
        }),
        total_memory(t.push(p)) == total_memory(t) + p.memory as nat,
{
    assert(t.push(p).drop_last() =~= t);
    assert(t.push(p).last() == p);
}

/// Group keys never repeat.
proof fn lemma_keys_distinct(t: Seq<ProcSample>)
    ensures
        forall|j1: int, j2: int|
            0 <= j1 < j2 < group_keys(t).len() ==> group_keys(t)[j1] != group_keys(t)[j2],
    decreases t.len(),
{
    if t.len() > 0 {
        lemma_keys_distinct(t.drop_last());
        let pre = group_keys(t.drop_last());
        if ranked(t.last()) && !pre.contains(t.last().name@) {
            assert forall|j1: int, j2: int|
                0 <= j1 < j2 < group_keys(t).len() implies group_keys(t)[j1] != group_keys(
                t,
            )[j2] by {
                if j2 == group_keys(t).len() - 1 {
                    assert(group_keys(t)[j2] == t.last().name@);
                    assert(pre[j1] == group_keys(t)[j1]);
                    assert(pre.contains(pre[j1]));
                }
            }
        }
    }
}

/// A name outside the group keys has empty sums and no first PID.
proof fn lemma_absent_name(t: Seq<ProcSample>, name: Seq<u8>, cores: u32)
    requires
        !group_keys(t).contains(name),
    ensures
        group_cpu(t, name, cores) == 0,
        group_memory(t, name) == 0,
        first_pid(t, name) is None,
    decreases t.len(),
{
    if t.len() > 0 {
        let pre = group_keys(t.drop_last());
        assert(!pre.contains(name)) by {
            if pre.contains(name) {
                let w = choose|w: int| 0 <= w < pre.len() && pre[w] == name;
                if ranked(t.last()) && !pre.contains(t.last().name@) {
                    assert(group_keys(t)[w] == name);
                } else {
                    assert(group_keys(t)[w] == name);
                }
            }
        }
        lemma_absent_name(t.drop_last(), name, cores);
        if ranked(t.last()) && t.last().name@ == name {
            if !pre.contains(name) {
                assert(group_keys(t).last() == name);
                assert(group_keys(t).contains(name));
            }
        }
    }
}

/// Every per-name CPU sum is bounded by the table size times the largest
/// single share.
proof fn lemma_cpu_bound(t: Seq<ProcSample>, name: Seq<u8>, cores: u32)
    requires
        cores >= 1,
    ensures
        group_cpu(t, name, cores) <= t.len() * 0x1_0000_0000,
    decreases t.len(),
{
    if t.len() > 0 {
        lemma_cpu_bound(t.drop_last(), name, cores);
        assert(cpu_share(t.last(), cores) < 0x1_0000_0000) by {
            vstd::arithmetic::div_mod::lemma_div_is_ordered_by_denominator(
                t.last().cpu_milli as int,
                1,
                cores as int,
            );
        }
        assert((t.len() - 1) * 0x1_0000_0000 + 0x1_0000_0000 == t.len() * 0x1_0000_0000)
            by (nonlinear_arith);
    }
}

/// Every per-name memory sum is bounded by the table's total memory.
proof fn lemma_memory_le_total(t: Seq<ProcSample>, name: Seq<u8>)
    ensures
        group_memory(t, name) <= total_memory(t),
    decreases t.len(),
{
    if t.len() > 0 {
        lemma_memory_le_total(t.drop_last(), name);
    }
}

/// Sums over a prefix never exceed the sums over the whole table.
proof fn lemma_prefix_bounds(t: Seq<ProcSample>, k: int, name: Seq<u8>)
    requires
        0 <= k <= t.len(),
    ensures
        group_memory(t.take(k), name) <= group_memory(t, name),
        total_memory(t.take(k)) <= total_memory(t),
    decreases t.len() - k,
{
    if k == t.len() {
        assert(t.take(k) =~= t);
    } else {
        assert(t.take(t.len() - 1) =~= t.drop_last());
        assert(t.drop_last().take(k) =~= t.take(k));
        lemma_prefix_bounds(t.drop_last(), k, name);
    }
}

/// The process takes part in the ranking.
fn is_ranked(p: &ProcSample) -> (r: bool)
    ensures
        r == ranked(*p),
{
    if p.cpu_milli <= ACTIVE_CPU_MILLI {
        return false;
    }
    let low = to_lower(&p.name);
    let w = "system".as_bytes_vec();
    !contains_sub(&low, &w)
}

/// Index of the record carrying `name`, if one is present.
fn find_record(rs: &Vec<ProcessRecord>, name: &Vec<u8>) -> (r: Option<usize>)
    ensures
        match r {
            Some(j) => j < rs@.len() && rs@[j as int].name@ == name@,
            None => forall|j: int| 0 <= j < rs@.len() ==> (#[trigger] rs@[j]).name@ != name@,
        },
{
    let mut i: usize = 0;
    while i < rs.len()
        invariant
            i <= rs@.len(),
            forall|j: int| 0 <= j < i ==> (#[trigger] rs@[j]).name@ != name@,
        decreases rs@.len() - i,
    {
        if bytes_eq(&rs[i].name, name) {
            return Some(i);
        }
        i += 1;
    }
    None
}

/// Group the ranked processes of the table by display name, in order of first
/// appearance, summing CPU shares and memory and keeping the first PID.
pub fn group_records(table: &Vec<ProcSample>, cores: u32) -> (r: Vec<ProcessRecord>)
    requires
        cores >= 1,
        table@.len() <= 0x8000_0000,
        total_memory(table@) <= u64::MAX,
    ensures
        records_match(table@, cores, r@),
{
    let mut out: Vec<ProcessRecord> = Vec::new();
    let mut i: usize = 0;
    while i < table.len()
        invariant
            cores >= 1,
            table@.len() <= 0x8000_0000,
            total_memory(table@) <= u64::MAX,
            i <= table@.len(),
            records_match(table@.take(i as int), cores, out@),
        decreases table@.len() - i,
    {
        let ghost pre = table@.take(i as int);
        let ghost keys_pre = group_keys(pre);
        proof {
            assert(table@.take(i + 1) =~= pre.push(table@[i as int]));
        }
        let p = &table[i];
        if is_ranked(p) {
            let share: u32 = p.cpu_milli / cores;
            match find_record(&out, &p.name) {
                Some(j) => {
                    proof {
                        assert(keys_pre[j as int] == out@[j as int].name@);
                        assert(keys_pre.contains(p.name@));
                        lemma_keys_distinct(pre);
                        lemma_cpu_bound(table@.take(i + 1), p.name@, cores);
                        lemma_prefix_bounds(table@, i + 1, p.name@);
                        lemma_memory_le_total(table@, p.name@);
                        assert forall|n: Seq<u8>|
                            group_cpu(pre.push(table@[i as int]), n, cores) == group_cpu(
                                pre,
                                n,
                                cores,
                            ) + (if ranked(table@[i as int]) && table@[i as int].name@ == n {
                                cpu_share(table@[i as int], cores)
                            } else {
                                0nat
                            }) by {
                            lemma_push_facts(pre, table@[i as int], n, cores);
                        }
                        assert((i + 1) * 0x1_0000_0000 <= 0x8000_0001 * 0x1_0000_0000)
                            by (nonlinear_arith)
                            requires
                                i + 1 <= 0x8000_0001,
                        ;
                    }
                    let cur_cpu = out[j].cpu_milli;
                    let cur_mem = out[j].memory;
                    proof {
                        lemma_push_facts(pre, table@[i as int], p.name@, cores);
                        assert(cur_cpu + share <= u64::MAX);
                        assert(cur_mem + p.memory <= u64::MAX);
                    }
                    out[j].cpu_milli = cur_cpu + share as u64;
                    out[j].memory = cur_mem + p.memory;
                    proof {
                        assert forall|jj: int| 0 <= jj < out@.len() implies {
                            &&& (#[trigger] out@[jj]).name@ == group_keys(table@.take(i + 1))[jj]
                            &&& out@[jj].cpu_milli == group_cpu(
                                table@.take(i + 1),
                                out@[jj].name@,
                                cores,
                            )
                            &&& out@[jj].memory == group_memory(table@.take(i + 1), out@[jj].name@)
                            &&& first_pid(table@.take(i + 1), out@[jj].name@) == Some(
                                out@[jj].pid,
                            )
                        } by {
                            lemma_push_facts(pre, table@[i as int], out@[jj].name@, cores);
                        }
                    }
                },
                None => {
                    proof {
                        assert forall|jj: int| 0 <= jj < keys_pre.len() implies keys_pre[jj]
                            != p.name@ by {
                            assert(out@[jj].name@ == keys_pre[jj]);
                        }
                        assert(!keys_pre.contains(p.name@));
                        lemma_absent_name(pre, p.name@, cores);
                        lemma_push_facts(pre, table@[i as int], p.name@, cores);
                    }
                    let rec = ProcessRecord {
                        name: copy_bytes(&p.name),
                        pid: p.pid,
                        cpu_milli: share as u64,
                        memory: p.memory,
                    };
                    out.push(rec);
                    proof {
                        assert(group_keys(table@.take(i + 1)) == keys_pre.push(p.name@));
                        assert forall|jj: int| 0 <= jj < out@.len() implies {
                            &&& (#[trigger] out@[jj]).name@ == group_keys(table@.take(i + 1))[jj]
                            &&& out@[jj].cpu_milli == group_cpu(
                                table@.take(i + 1),
                                out@[jj].name@,
                                cores,
                            )
                            &&& out@[jj].memory == group_memory(table@.take(i + 1), out@[jj].name@)
                            &&& first_pid(table@.take(i + 1), out@[jj].name@) == Some(
                                out@[jj].pid,
                            )
                        } by {
                            lemma_push_facts(pre, table@[i as int], out@[jj].name@, cores);
                        }
                    }
                },
            }
        } else {
            proof {
                lemma_push_facts(pre, table@[i as int], p.name@, cores);
                assert forall|jj: int| 0 <= jj < out@.len() implies {
                    &&& (#[trigger] out@[jj]).name@ == group_keys(table@.take(i + 1))[jj]
                    &&& out@[jj].cpu_milli == group_cpu(table@.take(i + 1), out@[jj].name@, cores)
                    &&& out@[jj].memory == group_memory(table@.take(i + 1), out@[jj].name@)
                    &&& first_pid(table@.take(i + 1), out@[jj].name@) == Some(out@[jj].pid)
                } by {
                    lemma_push_facts(pre, table@[i as int], out@[jj].name@, cores);
                }
            }
        }
        i += 1;
    }
    proof {
        assert(table@.take(table@.len() as int) =~= table@);
    }
    out
}

/// Reorder the records so that CPU never increases along the list.
fn sort_by_cpu(input: Vec<ProcessRecord>) -> (r: Vec<ProcessRecord>)
    ensures
        sorted_desc(r@),
        r@.to_multiset() == input@.to_multiset(),
        r@.len() == input@.len(),
{
    broadcast use vstd::seq_lib::group_to_multiset_ensures;
    broadcast use vstd::multiset::group_multiset_axioms;

    let ghost orig = input@;
    let mut src = input;
    let mut out: Vec<ProcessRecord> = Vec::new();
    while src.len() > 0
        invariant
            sorted_desc(out@),
            out@.len() + src@.len() == orig.len(),
            out@.to_multiset().add(src@.to_multiset()) == orig.to_multiset(),
            forall|a: int, b: int|
                0 <= a < out@.len() && 0 <= b < src@.len() ==> out@[a].cpu_milli
                    >= src@[b].cpu_milli,
        decreases src@.len(),
    {
        let mut m: usize = 0;
        let mut k: usize = 1;
        while k < src.len()
            invariant
                m < k,
                k <= src@.len(),
                src@.len() > 0,
                forall|b: int| 0 <= b < k ==> src@[m as int].cpu_milli >= src@[b].cpu_milli,
            decreases src@.len() - k,
        {
            if src[k].cpu_milli > src[m].cpu_milli {
                m = k;
            }
            k += 1;
        }
        let ghost src_before = src@;
        let ghost out_before = out@;
        let rec = src.remove(m);
        out.push(rec);
        proof {
            vstd::seq_lib::to_multiset_remove::<ProcessRecord>(src_before, m as int);
            vstd::seq_lib::to_multiset_build::<ProcessRecord>(out_before, src_before[m as int]);
            assert(src_before.contains(src_before[m as int]));
            src_before.to_multiset_ensures();
            assert(src_before.to_multiset().count(src_before[m as int]) > 0);
            assert(out@.to_multiset().add(src@.to_multiset()) =~= orig.to_multiset());
        }
    }
    proof {
        assert(src@.to_multiset() =~= Multiset::empty());
        assert(out@.to_multiset() =~= orig.to_multiset());
    }
    out
}

/// The full ranked pipeline: group the table, sort non-increasingly by CPU,
/// and keep at most the first `TOP_LIMIT` records.
pub fn top_processes(table: &Vec<ProcSample>, cores: u32) -> (r: Vec<ProcessRecord>)
    requires
        cores >= 1,
        table@.len() <= 0x8000_0000,
        total_memory(table@) <= u64::MAX,
    ensures
        ranking_of(table@, cores, r@),
        sorted_desc(r@),
        r@.len() <= TOP_LIMIT,
        r@.len() == if group_keys(table@).len() <= TOP_LIMIT {
            group_keys(table@).len()
        } else {
            TOP_LIMIT as nat
        },
{
    let grouped = group_records(table, cores);
    let ghost g = grouped@;
    let mut sorted = sort_by_cpu(grouped);
    let ghost full = sorted@;
    if sorted.len() > TOP_LIMIT {
        sorted.truncate(TOP_LIMIT);
    }
    proof {
        assert(full.to_multiset() == g.to_multiset());
        if full.len() > TOP_LIMIT {
            assert(sorted@ == full.take(TOP_LIMIT as int));
            assert(sorted_desc(sorted@));
        }
        assert(ranking_of(table@, cores, sorted@));
    }
    sorted
}

} // verus!
