//! The combined doctor report and its cross-probe notes.
use crate::device::DeviceReport;
use crate::envprobe::EnvReport;
use crate::text::{cat, or_text, owned, push_or, starts_with, starts_with_str, chars_of, strs};
use crate::versions::{classify, finding_for, version_in};
use vstd::prelude::*;

verus! {

broadcast use vstd::string::group_string_axioms;

#[derive(Debug)]
pub struct Doctor {
    pub device: DeviceReport,
    pub env: EnvReport,
}

/// The environment observations kept in the doctor's notes: all but the
/// toolchain-missing line, which the toolchain note already covers.
pub open spec fn kept_observations(obs: Seq<Seq<char>>) -> Seq<Seq<char>>
    decreases obs.len(),
{
    if obs.len() == 0 {
        seq![]
    } else {
        let p = kept_observations(obs.drop_last());
        if !starts_with(obs.last(), "risc0 toolchain not found"@) {
            p.push(obs.last())
        } else {
            p
        }
    }
}

pub open spec fn device_note(d: DeviceReport) -> Seq<char> {
    if d.metal_available {
        if d.unified_memory == Some(true) {
            "Metal device present with unified memory ("@ + or_text(d.device_name, "unknown"@)
                + ") — the hardware side of GPU proving is available"@
        } else {
            "Metal device present"@
        }
    } else {
        "no Metal device — any GPU-proving question ends here"@
    }
}

pub open spec fn toolchain_note(e: EnvReport) -> Seq<char> {
    if e.cargo_risczero is Some || e.r0vm is Some {
        "risc0 toolchain detected — run `r0-metal-doctor prove --project <host-crate>` to observe which prover lane actually executes; device capability alone proves nothing about lane selection"@
    } else {
        "risc0 toolchain not detected — install (rzup) and rerun; until a proof is observed, no lane claim can be made"@
    }
}

/// The finding stated for the `r0vm` version the environment reported.
pub open spec fn r0vm_finding(e: EnvReport) -> Seq<char> {
    finding_for(
        match e.r0vm {
            Some(s) => version_in(s@),
            None => None,
        },
    )
}

pub open spec fn doctor_notes(d: Doctor) -> Seq<Seq<char>> {
    seq![device_note(d.device), toolchain_note(d.env)] + kept_observations(
        strs(d.env.observations@),
    ) + seq![r0vm_finding(d.env)]
}

impl Doctor {
    /// Cross-probe observations. Facts in, facts out — the strongest thing
    /// this returns is "run `prove` to observe the lane", because only a
    /// watched run proves a lane.
    pub fn notes(&self) -> (r: Vec<String>)
        ensures
            strs(r@) == doctor_notes(*self),
    {
        let mut notes: Vec<String> = Vec::new();
        let first = if self.device.metal_available {
            if self.device.unified_memory == Some(true) {
                let mut s = owned("Metal device present with unified memory (");
                push_or(&mut s, &self.device.device_name, "unknown");
                s.append(") — the hardware side of GPU proving is available");
                s
            } else {
                owned("Metal device present")
            }
        } else {
            owned("no Metal device — any GPU-proving question ends here")
        };
        notes.push(first);
        let second = if self.env.cargo_risczero.is_some() || self.env.r0vm.is_some() {
            owned(
                "risc0 toolchain detected — run `r0-metal-doctor prove --project <host-crate>` to observe which prover lane actually executes; device capability alone proves nothing about lane selection",
            )
        } else {
            owned(
                "risc0 toolchain not detected — install (rzup) and rerun; until a proof is observed, no lane claim can be made",
            )
        };
        notes.push(second);
        let ghost head = strs(notes@);
        assert(head =~= seq![device_note(self.device), toolchain_note(self.env)]);
        let obs = &self.env.observations;
        let mut i: usize = 0;
        assert(kept_observations(strs(obs@).take(0)) =~= Seq::<Seq<char>>::empty());
        assert(strs(notes@) =~= head + kept_observations(strs(obs@).take(0)));
        while i < obs.len()
            invariant
                i <= obs.len(),
                strs(notes@) == head + kept_observations(strs(obs@).take(i as int)),
            decreases obs.len() - i,
        {
            proof {
                assert(strs(obs@).take(i + 1).drop_last() =~= strs(obs@).take(i as int));
            }
            let ov = chars_of(obs[i].as_str());
            if !starts_with_str(&ov, "risc0 toolchain not found") {
                let t = owned(obs[i].as_str());
                let ghost before = strs(notes@);
                notes.push(t);
                assert(strs(notes@) =~= before.push(t@));
            }
            assert(strs(notes@) =~= head + kept_observations(strs(obs@).take(i + 1)));
            i = i + 1;
        }
        assert(strs(obs@).take(i as int) =~= strs(obs@));
        let c = classify(
            match &self.env.r0vm {
                Some(v) => Some(v.as_str()),
                None => None,
            },
        );
        let ghost before = strs(notes@);
        let f = c.finding;
        notes.push(f);
        assert(strs(notes@) =~= before.push(f@));
        notes
    }
}

/// The doctor's second note reports the risc0 toolchain as detected exactly
/// when `cargo-risczero` or `r0vm` was found, and as not detected otherwise.
pub proof fn law_toolchain_note_follows_toolchain(d: Doctor)
    ensures
        doctor_notes(d).len() >= 2,
        starts_with(doctor_notes(d)[1], "risc0 toolchain detected"@) <==> (d.env.cargo_risczero is Some
            || d.env.r0vm is Some),
        starts_with(doctor_notes(d)[1], "risc0 toolchain not detected"@) <==> (
        d.env.cargo_risczero is None && d.env.r0vm is None),
{
    reveal_strlit(
        "risc0 toolchain detected — run `r0-metal-doctor prove --project <host-crate>` to observe which prover lane actually executes; device capability alone proves nothing about lane selection",
    );
    reveal_strlit(
        "risc0 toolchain not detected — install (rzup) and rerun; until a proof is observed, no lane claim can be made",
    );
    reveal_strlit("risc0 toolchain detected");
    reveal_strlit("risc0 toolchain not detected");
    let n = doctor_notes(d)[1];
    assert(n == toolchain_note(d.env));
    if d.env.cargo_risczero is Some || d.env.r0vm is Some {
        assert(n.subrange(0, 24) =~= "risc0 toolchain detected"@);
        assert(n[16] == 'd');
        if starts_with(n, "risc0 toolchain not detected"@) {
            assert(n.subrange(0, 28)[16] == 'n');
        }
    } else {
        assert(n.subrange(0, 28) =~= "risc0 toolchain not detected"@);
        assert(n[16] == 'n');
        if starts_with(n, "risc0 toolchain detected"@) {
            assert(n.subrange(0, 24)[16] == 'd');
        }
    }
}

/// The doctor's first note speaks of unified memory only when a Metal device
/// is present and reported unified memory; with no device it says so.
pub proof fn law_device_note_follows_device(d: Doctor)
    ensures
        starts_with(doctor_notes(d)[0], "Metal device present with unified memory"@) <==> (
        d.device.metal_available && d.device.unified_memory == Some(true)),
        starts_with(doctor_notes(d)[0], "no Metal device"@) <==> !d.device.metal_available,
{
    reveal_strlit("Metal device present with unified memory (");
    reveal_strlit("Metal device present with unified memory");
    reveal_strlit("Metal device present");
    reveal_strlit("no Metal device — any GPU-proving question ends here");
    reveal_strlit("no Metal device");
    let n = doctor_notes(d)[0];
    assert(n == device_note(d.device));
    if d.device.metal_available {
        if d.device.unified_memory == Some(true) {
            assert(n.subrange(0, 40) =~= "Metal device present with unified memory"@);
            if starts_with(n, "no Metal device"@) {
                assert(n.subrange(0, 15)[0] == 'n');
            }
        } else {
            assert(n =~= "Metal device present"@);
            if starts_with(n, "no Metal device"@) {
                assert(n.subrange(0, 15)[0] == 'n');
            }
        }
    } else {
        assert(n.subrange(0, 15) =~= "no Metal device"@);
        if starts_with(n, "Metal device present with unified memory"@) {
            assert(n.subrange(0, 40)[0] == 'M');
        }
    }
}

} // verus!
