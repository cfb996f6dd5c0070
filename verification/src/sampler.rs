//! Per-tick gauge arithmetic and the static labels of a connection.
//!
//! All gauges are integers: percentages rounded to the nearest whole number,
//! network traffic in hundredths of a megabyte, disk and RAM capacities in
//! tenths of a gigabyte. Rounding is to the nearest integer with halves
//! rounded up, stated exactly by `rounded_div`.
use vstd::prelude::*;
use vstd::string::StrSliceExecFns;
use vstd::string::StringSliceAdditionalSpecFns;

use crate::numfmt::fixed1_spec;
use crate::numfmt::push_all;
use crate::numfmt::push_fixed1;

verus! {

/// Bytes in one mebibyte.
pub const BYTES_PER_MB: u64 = 1048576;

/// Bytes in one gibibyte.
pub const BYTES_PER_GB: u64 = 1073741824;

/// `a / b` rounded to the nearest integer, halves up.
pub open spec fn rounded_div(a: int, b: int) -> int
    recommends
        a >= 0,
        b >= 1,
{
    (2 * a + b) / (2 * b)
}

/// Exact rounded quotient, computed in 128-bit arithmetic.
fn rounded_ratio(a: u128, b: u128) -> (r: u128)
    requires
        b >= 1,
        2 * a + b <= u128::MAX,
        2 * b <= u128::MAX,
    ensures
        r == rounded_div(a as int, b as int),
{
    (2 * a + b) / (2 * b)
}

/// RAM gauge: `used / total`, as a percentage rounded to the nearest integer.
pub fn percent_of(used: u64, total: u64) -> (r: u64)
    requires
        total >= 1,
        used <= total,
    ensures
        r == rounded_div(100 * used, total as int),
        r <= 100,
{
    let q = rounded_ratio(100 * (used as u128), total as u128);
    proof {
        let a = 100 * (used as int);
        let b = total as int;
        vstd::arithmetic::div_mod::lemma_fundamental_div_mod(2 * a + b, 2 * b);
        let m = (2 * a + b) % (2 * b);
        assert(0 <= m < 2 * b) by {
            vstd::arithmetic::div_mod::lemma_mod_bound(2 * a + b, 2 * b);
        }
        assert(2 * b * rounded_div(a, b) <= 2 * a + b);
        assert(2 * a + b <= 201 * b);
        assert(rounded_div(a, b) <= 100) by (nonlinear_arith)
            requires
                b >= 1,
                2 * b * rounded_div(a, b) <= 201 * b,
                rounded_div(a, b) >= 0,
        ;
        assert(rounded_div(a, b) >= 0) by (nonlinear_arith)
            requires
                a >= 0,
                b >= 1,
        ;
    }
    q as u64
}

/// CPU gauge: the mean of the per-core readings (each in thousandths of a
/// percent), rounded to the nearest whole percent.
pub fn cpu_percent_avg(sum_milli: u64, cores: u32) -> (r: u64)
    requires
        cores >= 1,
        sum_milli <= 100000 * (cores as u64),
    ensures
        r == rounded_div(sum_milli as int, 1000 * (cores as int)),
        r <= 100,
{
    let q = rounded_ratio(sum_milli as u128, 1000 * (cores as u128));
    proof {
        let a = sum_milli as int;
        let b = 1000 * (cores as int);
        vstd::arithmetic::div_mod::lemma_fundamental_div_mod(2 * a + b, 2 * b);
        vstd::arithmetic::div_mod::lemma_mod_bound(2 * a + b, 2 * b);
        assert(2 * b * rounded_div(a, b) <= 2 * a + b);
        assert(2 * a + b <= 201 * b);
        assert(rounded_div(a, b) <= 100) by (nonlinear_arith)
            requires
                b >= 1,
                2 * b * rounded_div(a, b) <= 201 * b,
                rounded_div(a, b) >= 0,
        ;
        assert(rounded_div(a, b) >= 0) by (nonlinear_arith)
            requires
                a >= 0,
                b >= 1,
        ;
    }
    q as u64
}

/// Network gauge: bytes moved since the last refresh, in hundredths of a
/// megabyte, rounded.
pub fn bytes_to_centi_mb(bytes: u64) -> (r: u64)
    ensures
        r == rounded_div(100 * bytes, BYTES_PER_MB as int),
{
    let q = rounded_ratio(100 * (bytes as u128), BYTES_PER_MB as u128);
    proof {
        let a = 100 * (bytes as int);
        let b = BYTES_PER_MB as int;
        vstd::arithmetic::div_mod::lemma_fundamental_div_mod(2 * a + b, 2 * b);
        vstd::arithmetic::div_mod::lemma_mod_bound(2 * a + b, 2 * b);
        assert(2 * b * rounded_div(a, b) <= 2 * a + b);
        assert(rounded_div(a, b) >= 0) by (nonlinear_arith)
            requires
                a >= 0,
                b >= 1,
        ;
        assert(rounded_div(a, b) < 0x8_0000_0000_0000);
    }
    q as u64
}

/// Capacity gauge: bytes in tenths of a gigabyte, rounded.
pub fn bytes_to_deci_gb(bytes: u64) -> (r: u64)
    ensures
        r == rounded_div(10 * bytes, BYTES_PER_GB as int),
{
    let q = rounded_ratio(10 * (bytes as u128), BYTES_PER_GB as u128);
    proof {
        let a = 10 * (bytes as int);
        let b = BYTES_PER_GB as int;
        vstd::arithmetic::div_mod::lemma_fundamental_div_mod(2 * a + b, 2 * b);
        vstd::arithmetic::div_mod::lemma_mod_bound(2 * a + b, 2 * b);
        assert(2 * b * rounded_div(a, b) <= 2 * a + b);
        assert(rounded_div(a, b) >= 0) by (nonlinear_arith)
            requires
                a >= 0,
                b >= 1,
        ;
        assert(rounded_div(a, b) < 0x80_0000_0000);
    }
    q as u64
}

/// The OS label shown to the consumer: name, a space, version.
pub fn os_label(name: &Vec<u8>, version: &Vec<u8>) -> (r: Vec<u8>)
    ensures
        r@ == name@ + " ".spec_bytes() + version@,
{
    let mut out: Vec<u8> = Vec::new();
    push_all(&mut out, name);
    let sp = " ".as_bytes_vec();
    push_all(&mut out, &sp);
    push_all(&mut out, version);
    proof {
        assert(out@ =~= name@ + " ".spec_bytes() + version@);
    }
    out
}

/// The RAM capacity label, e.g. `16.0 GB`, from the total RAM in bytes.
pub fn ram_amount_label(total_bytes: u64) -> (r: Vec<u8>)
    ensures
        r@ == fixed1_spec(rounded_div(10 * total_bytes, BYTES_PER_GB as int) as nat)
            + " GB".spec_bytes(),
{
    let deci = bytes_to_deci_gb(total_bytes);
    let mut out: Vec<u8> = Vec::new();
    push_fixed1(&mut out, deci);
    let sfx = " GB".as_bytes_vec();
    push_all(&mut out, &sfx);
    proof {
        assert(out@ =~= fixed1_spec(rounded_div(10 * total_bytes, BYTES_PER_GB as int) as nat)
            + " GB".spec_bytes());
    }
    out
}

/// The disk descriptor of the wire payload, from one disk's mount label,
/// total bytes and free bytes.
pub open spec fn disk_line_spec(mount: Seq<u8>, total_bytes: u64, free_bytes: u64) -> Seq<u8> {
    mount + ":: ".spec_bytes() + fixed1_spec(
        rounded_div(10 * (total_bytes - free_bytes), BYTES_PER_GB as int) as nat,
    ) + " GB / ".spec_bytes() + fixed1_spec(
        rounded_div(10 * total_bytes, BYTES_PER_GB as int) as nat,
    ) + " GB (".spec_bytes() + fixed1_spec(
        rounded_div(10 * free_bytes, BYTES_PER_GB as int) as nat,
    ) + " GB free)".spec_bytes()
}

/// Format one disk: `<mount>:: <used> GB / <total> GB (<free> GB free)`.
pub fn disk_line(mount: &Vec<u8>, total_bytes: u64, free_bytes: u64) -> (r: Vec<u8>)
    requires
        free_bytes <= total_bytes,
    ensures
        r@ == disk_line_spec(mount@, total_bytes, free_bytes),
{
    let used = bytes_to_deci_gb(total_bytes - free_bytes);
    let total = bytes_to_deci_gb(total_bytes);
    let free = bytes_to_deci_gb(free_bytes);
    let mut out: Vec<u8> = Vec::new();
    push_all(&mut out, mount);
    let s1 = ":: ".as_bytes_vec();
    push_all(&mut out, &s1);
    push_fixed1(&mut out, used);
    let s2 = " GB / ".as_bytes_vec();
    push_all(&mut out, &s2);
    push_fixed1(&mut out, total);
    let s3 = " GB (".as_bytes_vec();
    push_all(&mut out, &s3);
    push_fixed1(&mut out, free);
    let s4 = " GB free)".as_bytes_vec();
    push_all(&mut out, &s4);
    proof {
        assert(out@ =~= disk_line_spec(mount@, total_bytes, free_bytes));
    }
    out
}

/// The GPU name shown to the consumer: the device's own name when one was
/// discovered, else the fixed sentinel.
pub fn gpu_name_label(found: Option<Vec<u8>>) -> (r: Vec<u8>)
    ensures
        match found {
            Some(n) => r@ == n@,
            None => r@ == "GPU not found".spec_bytes(),
        },
{
    match found {
        Some(n) => n,
        None => "GPU not found".as_bytes_vec(),
    }
}

/// The GPU gauges of one tick: the device's reading when one is present,
/// else zero for both utilization and temperature.
pub fn gpu_gauges(reading: &Option<(u64, u64)>) -> (r: (u64, u64))
    ensures
        match reading {
            Some(g) => r == *g,
            None => r == (0u64, 0u64),
        },
{
    match reading {
        Some(g) => (g.0, g.1),
        None => (0, 0),
    }
}

} // verus!
