//! Proving-target registry — the structural honesty layer.
//!
//! The doctor observes more than one proving system. Each [`TargetDesc`] lists
//! the compute lanes that system *could* use on Apple Silicon, and tags each
//! with a [`ValidationStatus`]. Honesty lives in the data, not in prose: a
//! target whose Metal lane is [`ValidationStatus::NotApplicable`] literally has
//! no `Validated` Metal entry, so no output path can render it as
//! Metal-accelerated.
//!
//! - **risc0** is the validated target: its Metal and CPU lanes have both been
//!   observed running in real logs on this hardware.
//! - **Midnight** is a CPU-only target: its proving runs in a Linux Docker
//!   container (Plonk + KZG over BLS12-381) that cannot reach Metal on a Mac.
use crate::text::{chars_of, decimal, decimal_of, pad_right, pad_right_chars, push_chars, str_eq};
use vstd::prelude::*;

verus! {

broadcast use vstd::string::group_string_axioms;

/// How thoroughly — and whether — a lane is real for a target on this platform.
/// Rendered as an explicit badge, never a bare checkmark that conflates "works"
/// with "validated here".
#[derive(Debug, Clone, Copy, PartialEq, Eq, Structural)]
pub enum ValidationStatus {
    /// Watched it run in real logs on this hardware.
    Validated,
    /// Structurally impossible on this platform — stated with a reason.
    NotApplicable,
    /// Possible, but not set up on this machine right now.
    Unconfigured,
    /// A local endpoint observed reachable (e.g. a proof-server port answered) —
    /// transport only, NOT a proving or lane observation.
    Reachable,
    /// Observed only via network round-trip; not locally watched.
    Remote,
    /// Community / extensible slot, unverified here.
    Experimental,
}

impl ValidationStatus {
    pub open spec fn spec_badge(self) -> Seq<char> {
        match self {
            ValidationStatus::Validated => "[VALIDATED]"@,
            ValidationStatus::NotApplicable => "[N/A]"@,
            ValidationStatus::Unconfigured => "[UNCONFIGURED]"@,
            ValidationStatus::Reachable => "[REACHABLE]"@,
            ValidationStatus::Remote => "[REMOTE]"@,
            ValidationStatus::Experimental => "[EXPERIMENTAL]"@,
        }
    }

    pub fn badge(self) -> (r: &'static str)
        ensures
            r@ == self.spec_badge(),
    {
        match self {
            ValidationStatus::Validated => "[VALIDATED]",
            ValidationStatus::NotApplicable => "[N/A]",
            ValidationStatus::Unconfigured => "[UNCONFIGURED]",
            ValidationStatus::Reachable => "[REACHABLE]",
            ValidationStatus::Remote => "[REMOTE]",
            ValidationStatus::Experimental => "[EXPERIMENTAL]",
        }
    }
}

/// One compute lane of a target, with its validation status and a plain-English
/// note. For `NotApplicable` lanes the note carries the *reason*.
#[derive(Debug, Clone, Copy)]
pub struct LaneDesc {
    pub name: &'static str,
    pub status: ValidationStatus,
    pub note: &'static str,
}

/// A proving system the doctor knows how to observe.
#[derive(Debug, Clone)]
pub struct TargetDesc {
    pub id: &'static str,
    pub display: &'static str,
    /// One-line honesty headline — never stronger than the target's best lane.
    pub headline: &'static str,
    /// The command that performs deep, firsthand observation of this target.
    pub observer: &'static str,
    pub lanes: Vec<LaneDesc>,
}

pub open spec fn risc0_lanes() -> Seq<LaneDesc> {
    seq![
        LaneDesc {
            name: "metal",
            status: ValidationStatus::Validated,
            note: "Observable firsthand as `risc0_zkp::hal::metal` on a real proof run (seen via the risc0-metal-hybrid sibling). NOTE: stock risc0 3.0.5 / rv32im 4.0.4 ships no reachable Metal branch and proves on CPU — see FINDINGS.md.",
        },
        LaneDesc {
            name: "cpu",
            status: ValidationStatus::Validated,
            note: "Observed firsthand as `risc0_…::hal::cpu` — the stock risc0 3.0.5 lane on Apple Silicon.",
        },
        LaneDesc {
            name: "cuda",
            status: ValidationStatus::NotApplicable,
            note: "CUDA needs an NVIDIA GPU; unavailable on Apple Silicon by construction.",
        },
    ]
}

pub open spec fn midnight_lanes() -> Seq<LaneDesc> {
    seq![
        LaneDesc {
            name: "metal",
            status: ValidationStatus::NotApplicable,
            note: "Structurally impossible on a Mac: the stock proof server is CPU-only (Plonk + KZG over BLS12-381), the only GPU fork (Nocy) is NVIDIA-CUDA-only, and the server runs inside a Linux Docker container with no Metal passthrough.",
        },
        LaneDesc {
            name: "cpu",
            status: ValidationStatus::Unconfigured,
            note: "Midnight proves on the CPU (BLS12-381 Plonk/KZG; `blst` MSM + rayon). This is the structural lane, but this tool has not watched a Midnight proof run — bring up the proof server to observe one. It does not measure GPU utilization.",
        },
        LaneDesc {
            name: "cuda",
            status: ValidationStatus::Experimental,
            note: "A third-party CUDA fork (Nocy) exists for NVIDIA hardware on Linux; never available on Apple Silicon. Reported only as ecosystem context — no Metal/GPU lane here.",
        },
    ]
}

/// `t` is the risc0 entry of the registry.
pub open spec fn is_risc0(t: TargetDesc) -> bool {
    &&& t.id == "risc0"
    &&& t.display == "RISC Zero zkVM (rv32im segment prover)"
    &&& t.headline == "Validated lane observer — Metal and CPU both observed firsthand."
    &&& t.observer == "r0-metal-doctor prove --project <risc0-host-crate>"
    &&& t.lanes@ == risc0_lanes()
}

/// `t` is the Midnight entry of the registry.
pub open spec fn is_midnight(t: TargetDesc) -> bool {
    &&& t.id == "midnight"
    &&& t.display == "Midnight proof server (Compact; Plonk + KZG over BLS12-381)"
    &&& t.headline == "CPU-only — Metal is not applicable on Apple Silicon."
    &&& t.observer == "r0-metal-doctor midnight"
    &&& t.lanes@ == midnight_lanes()
}

fn risc0() -> (t: TargetDesc)
    ensures
        is_risc0(t),
{
    let mut lanes: Vec<LaneDesc> = Vec::new();
    lanes.push(
        LaneDesc {
            name: "metal",
            status: ValidationStatus::Validated,
            note: "Observable firsthand as `risc0_zkp::hal::metal` on a real proof run (seen via the risc0-metal-hybrid sibling). NOTE: stock risc0 3.0.5 / rv32im 4.0.4 ships no reachable Metal branch and proves on CPU — see FINDINGS.md.",
        },
    );
    lanes.push(
        LaneDesc {
            name: "cpu",
            status: ValidationStatus::Validated,
            note: "Observed firsthand as `risc0_…::hal::cpu` — the stock risc0 3.0.5 lane on Apple Silicon.",
        },
    );
    lanes.push(
        LaneDesc {
            name: "cuda",
            status: ValidationStatus::NotApplicable,
            note: "CUDA needs an NVIDIA GPU; unavailable on Apple Silicon by construction.",
        },
    );
    assert(lanes@ =~= risc0_lanes());
    TargetDesc {
        id: "risc0",
        display: "RISC Zero zkVM (rv32im segment prover)",
        headline: "Validated lane observer — Metal and CPU both observed firsthand.",
        observer: "r0-metal-doctor prove --project <risc0-host-crate>",
        lanes,
    }
}

fn midnight() -> (t: TargetDesc)
    ensures
        is_midnight(t),
{
    let mut lanes: Vec<LaneDesc> = Vec::new();
    lanes.push(
        LaneDesc {
            name: "metal",
            status: ValidationStatus::NotApplicable,
            note: "Structurally impossible on a Mac: the stock proof server is CPU-only (Plonk + KZG over BLS12-381), the only GPU fork (Nocy) is NVIDIA-CUDA-only, and the server runs inside a Linux Docker container with no Metal passthrough.",
        },
    );
    lanes.push(
        LaneDesc {
            name: "cpu",
            status: ValidationStatus::Unconfigured,
            note: "Midnight proves on the CPU (BLS12-381 Plonk/KZG; `blst` MSM + rayon). This is the structural lane, but this tool has not watched a Midnight proof run — bring up the proof server to observe one. It does not measure GPU utilization.",
        },
    );
    lanes.push(
        LaneDesc {
            name: "cuda",
            status: ValidationStatus::Experimental,
            note: "A third-party CUDA fork (Nocy) exists for NVIDIA hardware on Linux; never available on Apple Silicon. Reported only as ecosystem context — no Metal/GPU lane here.",
        },
    );
    assert(lanes@ =~= midnight_lanes());
    TargetDesc {
        id: "midnight",
        display: "Midnight proof server (Compact; Plonk + KZG over BLS12-381)",
        headline: "CPU-only — Metal is not applicable on Apple Silicon.",
        observer: "r0-metal-doctor midnight",
        lanes,
    }
}

/// All proving targets the doctor knows about: risc0, then Midnight.
pub fn all() -> (r: Vec<TargetDesc>)
    ensures
        r@.len() == 2,
        is_risc0(r@[0]),
        is_midnight(r@[1]),
{
    let mut v: Vec<TargetDesc> = Vec::new();
    v.push(risc0());
    v.push(midnight());
    v
}

/// Look up a target by id (`"risc0"`, `"midnight"`).
pub fn by_id(id: &str) -> (r: Option<TargetDesc>)
    ensures
        match r {
            Some(t) => (id@ == "risc0"@ && is_risc0(t)) || (id@ == "midnight"@ && is_midnight(t)),
            None => id@ != "risc0"@ && id@ != "midnight"@,
        },
{
    if str_eq(id, "risc0") {
        Some(risc0())
    } else if str_eq(id, "midnight") {
        Some(midnight())
    } else {
        None
    }
}

/// One lane row of the registry listing: badge and name padded into columns.
pub open spec fn lane_row(l: LaneDesc) -> Seq<char> {
    "    "@ + pad_right(l.status.spec_badge(), 14) + " "@ + pad_right(l.name@, 5) + " "@ + l.note@
        + "\n"@
}

pub open spec fn lane_rows(ls: Seq<LaneDesc>) -> Seq<char>
    decreases ls.len(),
{
    if ls.len() == 0 {
        seq![]
    } else {
        lane_rows(ls.drop_last()) + lane_row(ls.last())
    }
}

/// One target of the registry listing: title, headline, lanes and observer.
pub open spec fn target_block(t: TargetDesc) -> Seq<char> {
    t.display@ + "  ["@ + t.id@ + "]\n"@ + "  "@ + t.headline@ + "\n"@ + lane_rows(t.lanes@)
        + "  observe: "@ + t.observer@ + "\n\n"@
}

pub open spec fn target_blocks(ts: Seq<TargetDesc>) -> Seq<char>
    decreases ts.len(),
{
    if ts.len() == 0 {
        seq![]
    } else {
        target_blocks(ts.drop_last()) + target_block(ts.last())
    }
}

pub open spec fn badge_legend() -> Seq<char> {
    "Badges: [VALIDATED] watched it run here · [N/A] structurally impossible (reason given)\n        [UNCONFIGURED] possible, not set up · [REACHABLE] port answered (transport only)\n        [REMOTE] round-trip only · [EXPERIMENTAL] unverified here\n"@
}

/// The human-readable registry listing: a count, each target with its
/// per-lane badges, and the legend of badges.
pub open spec fn targets_text(ts: Seq<TargetDesc>) -> Seq<char> {
    "proving targets ("@ + decimal(ts.len()) + " known)\n\n"@ + target_blocks(ts) + badge_legend()
}

fn push_lane_rows(s: &mut String, ls: &Vec<LaneDesc>)
    ensures
        final(s)@ == old(s)@ + lane_rows(ls@),
{
    let ghost head = s@;
    let mut j: usize = 0;
    assert(lane_rows(ls@.take(0)) =~= Seq::<char>::empty());
    assert(s@ =~= head + lane_rows(ls@.take(0)));
    while j < ls.len()
        invariant
            j <= ls.len(),
            s@ == head + lane_rows(ls@.take(j as int)),
        decreases ls.len() - j,
    {
        proof {
            assert(ls@.take(j + 1).drop_last() =~= ls@.take(j as int));
        }
        let l = ls[j];
        s.append("    ");
        push_chars(s, &pad_right_chars(&chars_of(l.status.badge()), 14));
        s.append(" ");
        push_chars(s, &pad_right_chars(&chars_of(l.name), 5));
        s.append(" ");
        s.append(l.note);
        s.append("\n");
        assert(s@ =~= head + lane_rows(ls@.take(j + 1)));
        j = j + 1;
    }
    assert(ls@.take(j as int) =~= ls@);
}

/// Render the registry for a terminal. A `[N/A]` lane shows its reason and can
/// never read as a working one.
pub fn render_targets(targets: &Vec<TargetDesc>) -> (r: String)
    ensures
        r@ == targets_text(targets@),
{
    let mut s = String::new();
    s.append("proving targets (");
    push_chars(&mut s, &decimal_of(targets.len() as u64));
    s.append(" known)\n\n");
    let ghost head = s@;
    let mut i: usize = 0;
    assert(target_blocks(targets@.take(0)) =~= Seq::<char>::empty());
    assert(s@ =~= head + target_blocks(targets@.take(0)));
    while i < targets.len()
        invariant
            i <= targets.len(),
            s@ == head + target_blocks(targets@.take(i as int)),
        decreases targets.len() - i,
    {
        proof {
            assert(targets@.take(i + 1).drop_last() =~= targets@.take(i as int));
        }
        let t = &targets[i];
        let ghost before = s@;
        s.append(t.display);
        s.append("  [");
        s.append(t.id);
        s.append("]\n");
        s.append("  ");
        s.append(t.headline);
        s.append("\n");
        push_lane_rows(&mut s, &t.lanes);
        s.append("  observe: ");
        s.append(t.observer);
        s.append("\n\n");
        assert(s@ =~= before + target_block(*t));
        assert(s@ =~= head + target_blocks(targets@.take(i + 1)));
        i = i + 1;
    }
    assert(targets@.take(i as int) =~= targets@);
    s.append(
        "Badges: [VALIDATED] watched it run here · [N/A] structurally impossible (reason given)\n        [UNCONFIGURED] possible, not set up · [REACHABLE] port answered (transport only)\n        [REMOTE] round-trip only · [EXPERIMENTAL] unverified here\n",
    );
    s
}

/// The core honesty invariant of the registry: Midnight has no `Validated`
/// Metal lane (its only `metal` lane is `NotApplicable`), while risc0's Metal
/// lane is the validated one.
pub proof fn law_midnight_never_validated_on_metal(t: TargetDesc)
    requires
        is_midnight(t),
    ensures
        forall|i: int|
            0 <= i < t.lanes@.len() && (#[trigger] t.lanes@[i]).name@ == "metal"@ ==> t.lanes@[i].status
                == ValidationStatus::NotApplicable,
        exists|i: int|
            0 <= i < t.lanes@.len() && (#[trigger] t.lanes@[i]).name@ == "metal"@,
{
    reveal_strlit("metal");
    reveal_strlit("cpu");
    reveal_strlit("cuda");
    assert(t.lanes@[0].name@ == "metal"@);
}

/// risc0's Metal lane is `Validated`.
pub proof fn law_risc0_metal_validated(t: TargetDesc)
    requires
        is_risc0(t),
    ensures
        forall|i: int|
            0 <= i < t.lanes@.len() && (#[trigger] t.lanes@[i]).name@ == "metal"@ ==> t.lanes@[i].status
                == ValidationStatus::Validated,
{
    reveal_strlit("metal");
    reveal_strlit("cpu");
    reveal_strlit("cuda");
    assert("cuda"@ != "metal"@) by {
        assert("cuda"@[0] != "metal"@[0]);
    }
    assert("cpu"@ != "metal"@) by {
        assert("cpu"@.len() != "metal"@.len());
    }
}

} // verus!
