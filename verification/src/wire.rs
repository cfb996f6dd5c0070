//! Framing of the wire payload: one JSON object per tick, with a fixed field
//! set and order, built byte by byte against an exact specification of the
//! emitted text. Strings are escaped per JSON: quote and backslash get a
//! backslash, control bytes become `\u00XX`; all other bytes pass through.
use vstd::prelude::*;
use vstd::string::StrSliceExecFns;
use vstd::string::StringSliceAdditionalSpecFns;

use crate::aggregate::ProcessRecord;
use crate::health::HealthStatus;
use crate::health::HealthVerdict;
use crate::numfmt::dec_spec;
use crate::numfmt::fixed2_spec;
use crate::numfmt::fixed3_spec;
use crate::numfmt::push_all;
use crate::numfmt::push_dec;
use crate::numfmt::push_fixed2;
use crate::numfmt::push_fixed3;
use crate::snapshot::Snapshot;

verus! {

/// Lowercase hex digit of a value below 16.
pub open spec fn hex_digit(n: nat) -> u8 {
    if n < 10 {
        (48 + n) as u8
    } else {
        (87 + n) as u8
    }
}

/// JSON escape of one byte of a string.
pub open spec fn esc_byte(b: u8) -> Seq<u8> {
    if b == 34 {
        seq![92u8, 34u8]
    } else if b == 92 {
        seq![92u8, 92u8]
    } else if b < 32 {
        seq![92u8, 117u8, 48u8, 48u8, hex_digit((b / 16) as nat), hex_digit((b % 16) as nat)]
    } else {
        seq![b]
    }
}

/// JSON escape of a whole byte string.
pub open spec fn esc_bytes(s: Seq<u8>) -> Seq<u8>
    decreases s.len(),
{
    if s.len() == 0 {
        Seq::empty()
    } else {
        esc_bytes(s.drop_last()) + esc_byte(s.last())
    }
}

/// A JSON string literal: quotes around the escaped bytes.
pub open spec fn json_string(s: Seq<u8>) -> Seq<u8> {
    seq![34u8] + esc_bytes(s) + seq![34u8]
}

/// Comma-joined JSON string literals.
pub open spec fn string_items(ds: Seq<Seq<u8>>) -> Seq<u8>
    decreases ds.len(),
{
    if ds.len() == 0 {
        Seq::empty()
    } else {
        let pre = string_items(ds.drop_last());
        (if ds.len() == 1 {
            pre
        } else {
            pre.push(44u8)
        }) + json_string(ds.last())
    }
}

/// A JSON array of string literals.
pub open spec fn string_array(ds: Seq<Seq<u8>>) -> Seq<u8> {
    seq![91u8] + string_items(ds) + seq![93u8]
}

/// The JSON object of one ranked process record.
pub open spec fn record_json(r: ProcessRecord) -> Seq<u8> {
    "{\"name\":".spec_bytes() + json_string(r.name@) + ",\"pid\":".spec_bytes() + dec_spec(
        r.pid as nat,
    ) + ",\"cpu_usage\":".spec_bytes() + fixed3_spec(r.cpu_milli as nat)
        + ",\"memory_usage\":".spec_bytes() + dec_spec(r.memory as nat) + "}".spec_bytes()
}

/// Comma-joined record objects.
pub open spec fn record_items(rs: Seq<ProcessRecord>) -> Seq<u8>
    decreases rs.len(),
{
    if rs.len() == 0 {
        Seq::empty()
    } else {
        let pre = record_items(rs.drop_last());
        (if rs.len() == 1 {
            pre
        } else {
            pre.push(44u8)
        }) + record_json(rs.last())
    }
}

/// A JSON array of record objects.
pub open spec fn record_array(rs: Seq<ProcessRecord>) -> Seq<u8> {
    seq![91u8] + record_items(rs) + seq![93u8]
}

/// The status label on the wire.
pub open spec fn status_label(st: HealthStatus) -> Seq<u8> {
    if st is Warning {
        "Warning".spec_bytes()
    } else {
        "Healthy".spec_bytes()
    }
}

/// The health object on the wire.
pub open spec fn health_json(h: HealthVerdict) -> Seq<u8> {
    "{\"status\":\"".spec_bytes() + status_label(h.status) + "\",\"warnings\":".spec_bytes()
        + string_array(h.warnings.deep_view()) + "}".spec_bytes()
}

/// The whole payload of one tick: one JSON object with exactly the fixed
/// field set, in the fixed order.
pub open spec fn payload_spec(s: Snapshot) -> Seq<u8> {
    "{\"cpu_usage\":".spec_bytes() + dec_spec(s.sample.cpu_usage as nat)
        + ",\"ram_usage\":".spec_bytes() + dec_spec(s.sample.ram_usage as nat)
        + ",\"gpu_usage\":".spec_bytes() + dec_spec(s.sample.gpu_usage as nat)
        + ",\"gpu_temp\":".spec_bytes() + dec_spec(s.sample.gpu_temp as nat)
        + ",\"gpu_name\":".spec_bytes() + json_string(s.sample.gpu_name@)
        + ",\"os_name\":".spec_bytes() + json_string(s.sample.os_name@)
        + ",\"cpu_name\":".spec_bytes() + json_string(s.sample.cpu_name@)
        + ",\"ram_amount\":".spec_bytes() + json_string(s.sample.ram_amount@)
        + ",\"network_down\":".spec_bytes() + fixed2_spec(s.sample.network_down_centi_mb as nat)
        + ",\"network_up\":".spec_bytes() + fixed2_spec(s.sample.network_up_centi_mb as nat)
        + ",\"disks\":".spec_bytes() + string_array(s.sample.disks.deep_view())
        + ",\"process_count\":".spec_bytes() + dec_spec(s.process_count as nat)
        + ",\"top_processes\":".spec_bytes() + record_array(s.top_processes@)
        + ",\"host_name\":".spec_bytes() + json_string(s.sample.host_name@)
        + ",\"health\":".spec_bytes() + health_json(s.health) + "}".spec_bytes()
}

/// Append the bytes of a fixed fragment.
fn push_lit(out: &mut Vec<u8>, s: &str)
    ensures
        final(out)@ == old(out)@ + s.spec_bytes(),
{
    let v = s.as_bytes_vec();
    push_all(out, &v);
}

/// Append one string as a JSON string literal, escaping as it goes.
fn push_json_string(out: &mut Vec<u8>, s: &Vec<u8>)
    ensures
        final(out)@ == old(out)@ + json_string(s@),
{
    out.push(34u8);
    let mut i: usize = 0;
    while i < s.len()
        invariant
            i <= s@.len(),
            out@ == old(out)@ + seq![34u8] + esc_bytes(s@.take(i as int)),
        decreases s@.len() - i,
    {
        let ghost pre = s@.take(i as int);
        proof {
            assert(s@.take(i + 1).drop_last() =~= pre);
            assert(s@.take(i + 1).last() == s@[i as int]);
        }
        let b = s[i];
        if b == 34 {
            out.push(92u8);
            out.push(34u8);
        } else if b == 92 {
            out.push(92u8);
            out.push(92u8);
        } else if b < 32 {
            out.push(92u8);
            out.push(117u8);
            out.push(48u8);
            out.push(48u8);
            let hi = b / 16;
            let lo = b % 16;
            out.push(if hi < 10 {
                48 + hi
            } else {
                87 + hi
            });
            out.push(if lo < 10 {
                48 + lo
            } else {
                87 + lo
            });
        } else {
            out.push(b);
        }
        proof {
            assert(out@ =~= old(out)@ + seq![34u8] + esc_bytes(s@.take(i + 1)));
        }
        i += 1;
    }
    out.push(34u8);
    proof {
        assert(s@.take(s@.len() as int) =~= s@);
        assert(out@ =~= old(out)@ + json_string(s@));
    }
}

/// Append a JSON array of string literals.
fn push_string_array(out: &mut Vec<u8>, ds: &Vec<Vec<u8>>)
    ensures
        final(out)@ == old(out)@ + string_array(ds.deep_view()),
{
    let ghost dv = ds.deep_view();
    out.push(91u8);
    let mut i: usize = 0;
    while i < ds.len()
        invariant
            dv == ds.deep_view(),
            dv.len() == ds@.len(),
            forall|k: int| 0 <= k < ds@.len() ==> dv[k] == (#[trigger] ds@[k])@,
            i <= ds@.len(),
            out@ == old(out)@ + seq![91u8] + string_items(dv.take(i as int)),
        decreases ds@.len() - i,
    {
        proof {
            assert(dv.take(i + 1).drop_last() =~= dv.take(i as int));
            assert(dv.take(i + 1).last() == dv[i as int]);
        }
        if i > 0 {
            out.push(44u8);
        }
        push_json_string(out, &ds[i]);
        proof {
            assert(out@ =~= old(out)@ + seq![91u8] + string_items(dv.take(i + 1)));
        }
        i += 1;
    }
    out.push(93u8);
    proof {
        assert(dv.take(dv.len() as int) =~= dv);
        assert(out@ =~= old(out)@ + string_array(dv));
    }
}

/// Append the JSON object of one record.
fn push_record(out: &mut Vec<u8>, r: &ProcessRecord)
    ensures
        final(out)@ == old(out)@ + record_json(*r),
{
    push_lit(out, "{\"name\":");
    push_json_string(out, &r.name);
    push_lit(out, ",\"pid\":");
    push_dec(out, r.pid as u64);
    push_lit(out, ",\"cpu_usage\":");
    push_fixed3(out, r.cpu_milli);
    push_lit(out, ",\"memory_usage\":");
    push_dec(out, r.memory);
    push_lit(out, "}");
    proof {
        assert(out@ =~= old(out)@ + record_json(*r));
    }
}

/// Append a JSON array of record objects.
fn push_record_array(out: &mut Vec<u8>, rs: &Vec<ProcessRecord>)
    ensures
        final(out)@ == old(out)@ + record_array(rs@),
{
    out.push(91u8);
    let mut i: usize = 0;
    while i < rs.len()
        invariant
            i <= rs@.len(),
            out@ == old(out)@ + seq![91u8] + record_items(rs@.take(i as int)),
        decreases rs@.len() - i,
    {
        proof {
            assert(rs@.take(i + 1).drop_last() =~= rs@.take(i as int));
            assert(rs@.take(i + 1).last() == rs@[i as int]);
        }
        if i > 0 {
            out.push(44u8);
        }
        push_record(out, &rs[i]);
        proof {
            assert(out@ =~= old(out)@ + seq![91u8] + record_items(rs@.take(i + 1)));
        }
        i += 1;
    }
    out.push(93u8);
    proof {
        assert(rs@.take(rs@.len() as int) =~= rs@);
        assert(out@ =~= old(out)@ + record_array(rs@));
    }
}

/// Append the health object.
fn push_health(out: &mut Vec<u8>, h: &HealthVerdict)
    ensures
        final(out)@ == old(out)@ + health_json(*h),
{
    push_lit(out, "{\"status\":\"");
    match h.status {
        HealthStatus::Warning => push_lit(out, "Warning"),
        HealthStatus::Healthy => push_lit(out, "Healthy"),
    }
    push_lit(out, "\",\"warnings\":");
    push_string_array(out, &h.warnings);
    push_lit(out, "}");
    proof {
        assert(out@ =~= old(out)@ + health_json(*h));
    }
}

/// Serialize one snapshot to the exact wire bytes of its tick.
#[verifier::rlimit(50)]
pub fn emit_payload(s: &Snapshot) -> (r: Vec<u8>)
    ensures
        r@ == payload_spec(*s),
{
    let mut out: Vec<u8> = Vec::new();
    push_lit(&mut out, "{\"cpu_usage\":");
    push_dec(&mut out, s.sample.cpu_usage);
    push_lit(&mut out, ",\"ram_usage\":");
    push_dec(&mut out, s.sample.ram_usage);
    push_lit(&mut out, ",\"gpu_usage\":");
    push_dec(&mut out, s.sample.gpu_usage);
    push_lit(&mut out, ",\"gpu_temp\":");
    push_dec(&mut out, s.sample.gpu_temp);
    push_lit(&mut out, ",\"gpu_name\":");
    push_json_string(&mut out, &s.sample.gpu_name);
    push_lit(&mut out, ",\"os_name\":");
    push_json_string(&mut out, &s.sample.os_name);
    push_lit(&mut out, ",\"cpu_name\":");
    push_json_string(&mut out, &s.sample.cpu_name);
    push_lit(&mut out, ",\"ram_amount\":");
    push_json_string(&mut out, &s.sample.ram_amount);
    push_lit(&mut out, ",\"network_down\":");
    push_fixed2(&mut out, s.sample.network_down_centi_mb);
    push_lit(&mut out, ",\"network_up\":");
    push_fixed2(&mut out, s.sample.network_up_centi_mb);
    push_lit(&mut out, ",\"disks\":");
    push_string_array(&mut out, &s.sample.disks);
    push_lit(&mut out, ",\"process_count\":");
    push_dec(&mut out, s.process_count as u64);
    push_lit(&mut out, ",\"top_processes\":");
    push_record_array(&mut out, &s.top_processes);
    push_lit(&mut out, ",\"host_name\":");
    push_json_string(&mut out, &s.sample.host_name);
    push_lit(&mut out, ",\"health\":");
    push_health(&mut out, &s.health);
    push_lit(&mut out, "}");
    proof {
        assert(out@ =~= payload_spec(*s));
    }
    out
}

} // verus!
