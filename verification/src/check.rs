//! `check` — a one-shot, paste-ready health summary.
//!
//! From the universal probes (Metal device + host env) and, when a project was
//! given, one observed risc0 proof run, build a single compact line suitable
//! for dropping into a bug report or CI log:
//!
//! ```text
//! r0-metal-doctor 0.2.0 | Apple M4 Max (apple9, unified) | risc0 3.0.5 | lane: cpu-observed (debug) | DEV_MODE off
//! ```
use crate::device::DeviceReport;
use crate::envprobe::{is_truthy, truthy, EnvReport};
use crate::lane::Lane;
use crate::prove::{ProveOpts, ProveReport};
use crate::text::{cat, ends_with, opt_view, or_text, owned, push_or};
use crate::versions::{classify, version_in};
use vstd::prelude::*;

verus! {

broadcast use vstd::string::group_string_axioms;

#[derive(Debug)]
pub struct CheckReport {
    pub tool: String,
    pub device: String,
    pub risc0: String,
    pub dev_mode: String,
    pub lane: String,
    pub lane_lines: usize,
    pub observed_lane: Option<Lane>,
    pub timed_out: bool,
    pub summary_line: String,
}

#[derive(Debug)]
pub struct CheckOpts {
    pub project: Option<String>,
    pub timeout_secs: u64,
    pub redact: bool,
}

impl CheckOpts {
    /// How the optional proof run is observed: at `debug`, with this check's
    /// budget and redaction.
    pub fn prove_opts(&self) -> (r: ProveOpts)
        ensures
            r.rust_log@ == "debug"@,
            r.timeout_secs == self.timeout_secs,
            r.redact == self.redact,
    {
        ProveOpts { rust_log: owned("debug"), timeout_secs: self.timeout_secs, redact: self.redact }
    }
}

/// The package version this library reports.
pub open spec fn version_text() -> Seq<char> {
    "0.2.0"@
}

pub open spec fn spec_tool_string() -> Seq<char> {
    "r0-metal-doctor "@ + version_text()
}

pub fn tool_string() -> (r: String)
    ensures
        r@ == spec_tool_string(),
{
    cat("r0-metal-doctor ", "0.2.0")
}

pub open spec fn spec_device_string(dev: DeviceReport) -> Seq<char> {
    if !dev.metal_available {
        "no Metal device"@
    } else {
        or_text(dev.device_name, "Metal device"@) + " ("@ + or_text(dev.apple_gpu_family, "?"@)
            + ", "@ + (if dev.unified_memory == Some(true) {
            "unified"@
        } else {
            "discrete"@
        }) + ")"@
    }
}

pub fn device_string(dev: &DeviceReport) -> (r: String)
    ensures
        r@ == spec_device_string(*dev),
        !dev.metal_available ==> r@ == "no Metal device"@,
        dev.metal_available ==> (ends_with(r@, ", unified)"@) <==> dev.unified_memory == Some(
            true,
        )),
        dev.metal_available ==> (ends_with(r@, ", discrete)"@) <==> dev.unified_memory != Some(
            true,
        )),
{
    proof {
        law_device_memory_word(*dev);
    }
    if !dev.metal_available {
        return owned("no Metal device");
    }
    let mut s = String::new();
    push_or(&mut s, &dev.device_name, "Metal device");
    s.append(" (");
    push_or(&mut s, &dev.apple_gpu_family, "?");
    s.append(", ");
    if dev.unified_memory == Some(true) {
        s.append("unified");
    } else {
        s.append("discrete");
    }
    s.append(")");
    s
}

pub open spec fn spec_risc0_string(env: EnvReport) -> Seq<char> {
    match (match env.r0vm {
        Some(s) => version_in(s@),
        None => None,
    }) {
        Some(v) => "risc0 "@ + v,
        None => "risc0 toolchain not installed"@,
    }
}

pub fn risc0_string(env: &EnvReport) -> (r: String)
    ensures
        r@ == spec_risc0_string(*env),
{
    let c = classify(
        match &env.r0vm {
            Some(v) => Some(v.as_str()),
            None => None,
        },
    );
    match &c.detected_version {
        Some(v) => cat("risc0 ", v.as_str()),
        None => owned("risc0 toolchain not installed"),
    }
}

pub open spec fn spec_dev_mode_string(env: EnvReport) -> Seq<char> {
    if env.risc0_dev_mode matches Some(v) && is_truthy(v@) {
        "ON (fake receipts!)"@
    } else {
        "off"@
    }
}

pub fn dev_mode_string(env: &EnvReport) -> (r: String)
    ensures
        r@ == spec_dev_mode_string(*env),
{
    match &env.risc0_dev_mode {
        Some(v) => if truthy(v.as_str()) {
            owned("ON (fake receipts!)")
        } else {
            owned("off")
        },
        None => owned("off"),
    }
}

pub open spec fn spec_lane_string(prove: Option<ProveReport>) -> Seq<char> {
    match prove {
        Some(r) => if r.timed_out {
            "timed out"@
        } else {
            r.spec_verdict_short() + " ("@ + r.rust_log@ + ")"@
        },
        None => "not observed (pass --project <crate>)"@,
    }
}

pub fn lane_string(prove: Option<&ProveReport>) -> (r: String)
    ensures
        r@ == spec_lane_string(
            match prove {
                Some(p) => Some(*p),
                None => None,
            },
        ),
{
    match prove {
        Some(r) => if r.timed_out {
            owned("timed out")
        } else {
            let mut s = r.verdict_short();
            s.append(" (");
            s.append(r.rust_log.as_str());
            s.append(")");
            s
        },
        None => owned("not observed (pass --project <crate>)"),
    }
}

pub open spec fn spec_summary_line(
    dev: DeviceReport,
    env: EnvReport,
    prove: Option<ProveReport>,
) -> Seq<char> {
    spec_tool_string() + " | "@ + spec_device_string(dev) + " | "@ + spec_risc0_string(env)
        + " | lane: "@ + spec_lane_string(prove) + " | DEV_MODE "@ + spec_dev_mode_string(env)
}

/// Build the compact one-line summary from already-collected reports. Shared by
/// `check` and `bundle` so proving never runs twice.
pub fn summary_line(dev: &DeviceReport, env: &EnvReport, prove: Option<&ProveReport>) -> (r: String)
    ensures
        r@ == spec_summary_line(
            *dev,
            *env,
            match prove {
                Some(p) => Some(*p),
                None => None,
            },
        ),
{
    let mut s = tool_string();
    s.append(" | ");
    s.append(device_string(dev).as_str());
    s.append(" | ");
    s.append(risc0_string(env).as_str());
    s.append(" | lane: ");
    s.append(lane_string(prove).as_str());
    s.append(" | DEV_MODE ");
    s.append(dev_mode_string(env).as_str());
    s
}

/// Build the check report from the probes already made: the device, the host
/// environment, and the proof run if one was observed.
pub fn run(dev: &DeviceReport, env: &EnvReport, prove: Option<&ProveReport>) -> (r: CheckReport)
    requires
        prove matches Some(p) ==> p.lane_counts.metal + p.lane_counts.cuda + p.lane_counts.cpu
            <= usize::MAX,
    ensures
        ({
            let p = match prove {
                Some(p) => Some(*p),
                None => None,
            };
            &&& r.tool@ == spec_tool_string()
            &&& r.device@ == spec_device_string(*dev)
            &&& r.risc0@ == spec_risc0_string(*env)
            &&& r.dev_mode@ == spec_dev_mode_string(*env)
            &&& r.lane@ == spec_lane_string(p)
            &&& r.lane_lines == match p {
                Some(q) => q.lane_counts.spec_total(),
                None => 0,
            }
            &&& r.observed_lane == match p {
                Some(q) => q.observed_lane,
                None => None,
            }
            &&& r.timed_out == match p {
                Some(q) => q.timed_out,
                None => false,
            }
            &&& r.summary_line@ == spec_summary_line(*dev, *env, p)
        }),
{
    CheckReport {
        tool: tool_string(),
        device: device_string(dev),
        risc0: risc0_string(env),
        dev_mode: dev_mode_string(env),
        lane: lane_string(prove),
        lane_lines: match prove {
            Some(p) => p.lane_counts.total(),
            None => 0,
        },
        observed_lane: match prove {
            Some(p) => p.observed_lane,
            None => None,
        },
        timed_out: match prove {
            Some(p) => p.timed_out,
            None => false,
        },
        summary_line: summary_line(dev, env, prove),
    }
}

/// The device part of the summary names the memory `unified` only when the
/// device reported unified memory, and `discrete` otherwise (also when the
/// memory kind is unknown); without a Metal device it says so.
pub proof fn law_device_memory_word(dev: DeviceReport)
    ensures
        !dev.metal_available ==> spec_device_string(dev) == "no Metal device"@,
        dev.metal_available ==> (ends_with(spec_device_string(dev), ", unified)"@) <==> dev.unified_memory
            == Some(true)),
        dev.metal_available ==> (ends_with(spec_device_string(dev), ", discrete)"@)
            <==> dev.unified_memory != Some(true)),
{
    reveal_strlit(", ");
    reveal_strlit("unified");
    reveal_strlit("discrete");
    reveal_strlit(")");
    reveal_strlit(", unified)");
    reveal_strlit(", discrete)");
    if dev.metal_available {
        let t = spec_device_string(dev);
        let head = or_text(dev.device_name, "Metal device"@) + " ("@ + or_text(
            dev.apple_gpu_family,
            "?"@,
        );
        if dev.unified_memory == Some(true) {
            assert(t =~= head + ", unified)"@);
            assert(t.subrange(t.len() - 10, t.len() as int) =~= ", unified)"@);
            assert(t[t.len() - 10] == ',');
            if ends_with(t, ", discrete)"@) {
                assert(t.subrange(t.len() - 11, t.len() as int)[1] == ' ');
            }
        } else {
            assert(t =~= head + ", discrete)"@);
            assert(t.subrange(t.len() - 11, t.len() as int) =~= ", discrete)"@);
            assert(t[t.len() - 10] == ' ');
            if ends_with(t, ", unified)"@) {
                assert(t.subrange(t.len() - 10, t.len() as int)[0] == ',');
            }
        }
    }
}

} // verus!
