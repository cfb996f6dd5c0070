//! Health evaluation: a pure function of the tick's rounded CPU, GPU, GPU
//! temperature and RAM gauges. Each threshold is checked independently and
//! appends its own warning line; the status is Warning exactly when at least
//! one threshold fired. No hysteresis: every tick is judged on its own.
use vstd::prelude::*;
use vstd::string::StrSliceExecFns;
use vstd::string::StringSliceAdditionalSpecFns;

use crate::numfmt::dec_spec;
use crate::numfmt::push_all;
use crate::numfmt::push_dec;

verus! {

/// CPU percentage above which a warning fires.
pub const CPU_WARN_PERCENT: u64 = 95;

/// GPU utilization percentage above which a warning fires.
pub const GPU_WARN_PERCENT: u64 = 95;

/// GPU temperature above which a warning fires, in degrees Celsius.
pub const GPU_WARN_TEMP: u64 = 85;

/// RAM percentage above which a warning fires.
pub const RAM_WARN_PERCENT: u64 = 95;

/// The health label of one tick.
#[derive(PartialEq, Eq, Structural, Clone, Copy, Debug)]
pub enum HealthStatus {
    Healthy,
    Warning,
}

/// The health verdict of one tick: a status and the warning lines, in the
/// fixed check order CPU, GPU usage, GPU temperature, RAM.
pub struct HealthVerdict {
    pub status: HealthStatus,
    pub warnings: Vec<Vec<u8>>,
}

/// Warning line for high CPU.
pub open spec fn msg_cpu(v: nat) -> Seq<u8> {
    "High CPU usage: ".spec_bytes() + dec_spec(v) + "%".spec_bytes()
}

/// Warning line for high GPU utilization.
pub open spec fn msg_gpu(v: nat) -> Seq<u8> {
    "High GPU usage: ".spec_bytes() + dec_spec(v) + "%".spec_bytes()
}

/// Warning line for high GPU temperature.
pub open spec fn msg_gpu_temp(v: nat) -> Seq<u8> {
    "High GPU temperature: ".spec_bytes() + dec_spec(v) + "\u{00b0}C".spec_bytes()
}

/// Warning line for high RAM.
pub open spec fn msg_ram(v: nat) -> Seq<u8> {
    "High RAM usage: ".spec_bytes() + dec_spec(v) + "%".spec_bytes()
}

/// Some threshold fired this tick.
pub open spec fn any_threshold(cpu: u64, gpu: u64, gpu_temp: u64, ram: u64) -> bool {
    cpu > CPU_WARN_PERCENT || gpu > GPU_WARN_PERCENT || gpu_temp > GPU_WARN_TEMP || ram
        > RAM_WARN_PERCENT
}

/// The exact warning list of one tick, in check order.
pub open spec fn warnings_spec(cpu: u64, gpu: u64, gpu_temp: u64, ram: u64) -> Seq<Seq<u8>> {
    let s0 = Seq::<Seq<u8>>::empty();
    let s1 = if cpu > CPU_WARN_PERCENT {
        s0.push(msg_cpu(cpu as nat))
    } else {
        s0
    };
    let s2 = if gpu > GPU_WARN_PERCENT {
        s1.push(msg_gpu(gpu as nat))
    } else {
        s1
    };
    let s3 = if gpu_temp > GPU_WARN_TEMP {
        s2.push(msg_gpu_temp(gpu_temp as nat))
    } else {
        s2
    };
    if ram > RAM_WARN_PERCENT {
        s3.push(msg_ram(ram as nat))
    } else {
        s3
    }
}

/// One warning line: a prefix, the gauge value in decimal, and a unit suffix.
fn warning_line(prefix: &str, v: u64, suffix: &str) -> (r: Vec<u8>)
    ensures
        r@ == prefix.spec_bytes() + dec_spec(v as nat) + suffix.spec_bytes(),
{
    let mut out = prefix.as_bytes_vec();
    push_dec(&mut out, v);
    let sfx = suffix.as_bytes_vec();
    push_all(&mut out, &sfx);
    proof {
        assert(out@ =~= prefix.spec_bytes() + dec_spec(v as nat) + suffix.spec_bytes());
    }
    out
}

/// Judge one tick. The warnings are exactly `warnings_spec` of the four
/// gauges, and the status is Warning exactly when a threshold fired, which
/// holds exactly when the warning list is non-empty.
pub fn evaluate_health(cpu: u64, gpu: u64, gpu_temp: u64, ram: u64) -> (r: HealthVerdict)
    ensures
        r.warnings.deep_view() == warnings_spec(cpu, gpu, gpu_temp, ram),
        (r.status == HealthStatus::Warning) <==> any_threshold(cpu, gpu, gpu_temp, ram),
        (r.status == HealthStatus::Warning) <==> r.warnings@.len() > 0,
{
    let mut warnings: Vec<Vec<u8>> = Vec::new();
    proof {
        assert(warnings.deep_view() =~~= Seq::<Seq<u8>>::empty());
    }
    let ghost d0 = warnings.deep_view();
    if cpu > CPU_WARN_PERCENT {
        warnings.push(warning_line("High CPU usage: ", cpu, "%"));
        proof {
            assert(warnings.deep_view() =~~= d0.push(msg_cpu(cpu as nat)));
        }
    }
    let ghost d1 = warnings.deep_view();
    if gpu > GPU_WARN_PERCENT {
        warnings.push(warning_line("High GPU usage: ", gpu, "%"));
        proof {
            assert(warnings.deep_view() =~~= d1.push(msg_gpu(gpu as nat)));
        }
    }
    let ghost d2 = warnings.deep_view();
    if gpu_temp > GPU_WARN_TEMP {
        warnings.push(warning_line("High GPU temperature: ", gpu_temp, "\u{00b0}C"));
        proof {
            assert(warnings.deep_view() =~~= d2.push(msg_gpu_temp(gpu_temp as nat)));
        }
    }
    let ghost d3 = warnings.deep_view();
    if ram > RAM_WARN_PERCENT {
        warnings.push(warning_line("High RAM usage: ", ram, "%"));
        proof {
            assert(warnings.deep_view() =~~= d3.push(msg_ram(ram as nat)));
        }
    }
    proof {
        assert(warnings.deep_view() == warnings_spec(cpu, gpu, gpu_temp, ram));
    }
    let status = if warnings.len() > 0 {
        HealthStatus::Warning
    } else {
        HealthStatus::Healthy
    };
    HealthVerdict { status, warnings }
}

/// With the GPU absent, its gauges are zero and no GPU warning can fire:
/// every warning of such a tick is the CPU or the RAM line, and the verdict
/// depends on CPU and RAM alone.
pub proof fn lemma_absent_gpu_never_warns(cpu: u64, ram: u64)
    ensures
        any_threshold(cpu, 0, 0, ram) == (cpu > CPU_WARN_PERCENT || ram > RAM_WARN_PERCENT),
        forall|k: int|
            0 <= k < warnings_spec(cpu, 0, 0, ram).len() ==> #[trigger] warnings_spec(
                cpu,
                0,
                0,
                ram,
            )[k] == msg_cpu(cpu as nat) || warnings_spec(cpu, 0, 0, ram)[k] == msg_ram(ram as nat),
{
}

} // verus!
