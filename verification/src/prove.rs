//! Observing a real risc0 proof run: what to run, and what the captured run
//! shows.
//!
//! The caller spawns the run (streaming it live, under a wall-clock timeout)
//! and hands back the exit status, whether it timed out, and the captured
//! lines. The verdict is derived only from the lane lines actually captured —
//! see [`crate::lane`] — and on timeout or failure it fails closed to
//! `indeterminate` rather than guessing.
use crate::lane::{
    clean_lines, exit_code, is_ranking, law_head_is_dominant, kept_lines, lane_lines, other_names, ranked_lanes, scan,
    spec_exit_code, Lane, LaneCounts, Verdict, EXIT_INDETERMINATE,
};
use crate::sanitize::{redact, redacted, HostIdentity};
use crate::text::{
    cat, chars_of, decimal, decimal_of, join, join_chars, owned, push_chars, seqs, signed_decimal,
    signed_decimal_of, starts_with, starts_with_str, string_of, strs, words, words_of,
};
use crate::versions::{classified, classify, Classification};
use vstd::prelude::*;

verus! {

broadcast use vstd::string::group_string_axioms;

/// Options controlling how a proof run is observed.
#[derive(Debug)]
pub struct ProveOpts {
    /// `RUST_LOG` value for the child. Defaults to `debug` — risc0 emits no
    /// lane-selection lines at `info`, so `info` would always be indeterminate.
    pub rust_log: String,
    /// Wall-clock budget. On expiry the child is killed and the verdict fails
    /// closed to indeterminate.
    pub timeout_secs: u64,
    /// Collapse host-identifying paths/username in the stored report so it is
    /// safe to paste into a public bug report.
    pub redact: bool,
}

impl Default for ProveOpts {
    fn default() -> (r: ProveOpts)
        ensures
            r.rust_log@ == "debug"@,
            r.timeout_secs == 600,
            r.redact,
    {
        ProveOpts { rust_log: owned("debug"), timeout_secs: 600, redact: true }
    }
}

/// Outcome of observing one real proof run. The verdict derives only from the
/// matched lines (included verbatim, ANSI-stripped) so a reader can check it.
/// The wall time is kept exactly, as whole seconds and nanoseconds.
#[derive(Debug)]
pub struct ProveReport {
    pub target: &'static str,
    pub project: String,
    pub command: String,
    pub rust_log: String,
    pub risc0_dev_mode: String,
    pub r0vm_version: Option<String>,
    pub cargo_risczero_version: Option<String>,
    pub risc0_matrix: Classification,
    pub exit_code: Option<i32>,
    pub timed_out: bool,
    pub timeout_secs: u64,
    pub wall_secs: u64,
    pub wall_subsec_nanos: u32,
    pub verdict: String,
    pub observed_lane: Option<Lane>,
    pub lane_counts: LaneCounts,
    pub matched_lines: Vec<String>,
    pub note: String,
}

/// The label of the verdict that counts `c` call for.
pub open spec fn counts_label(c: LaneCounts) -> Seq<char> {
    let r = ranked_lanes(c);
    if r.len() == 0 {
        "indeterminate — no prover-selection lines captured; rerun with RUST_LOG=debug"@
    } else if r.len() == 1 {
        r[0].name() + "-observed"@
    } else {
        "mixed — dominant "@ + r[0].name() + " (also: "@ + join(other_names(r, r[0]), ", "@)
            + ")"@
    }
}

/// The lane (the dominant one) that counts `c` call for, if any.
pub open spec fn counts_lane(c: LaneCounts) -> Option<Lane> {
    let r = ranked_lanes(c);
    if r.len() == 0 {
        None
    } else {
        Some(r[0])
    }
}

proof fn lemma_derived_label(c: LaneCounts, v: Verdict)
    requires
        v.derived_from(c),
    ensures
        v.spec_label() == counts_label(c),
        v.spec_effective_lane() == counts_lane(c),
{
}

/// The verdict text and claimed lane of a run: a timed-out or failed run
/// claims no lane; a successful one states what its lane lines show.
pub open spec fn run_verdict(c: LaneCounts, timed_out: bool, status: Option<i32>, timeout_secs: u64) -> (
    Seq<char>,
    Option<Lane>,
) {
    if timed_out {
        (
            "indeterminate — timed out after "@ + decimal(timeout_secs as nat)
                + "s before the run completed; see lane_counts/matched_lines"@,
            None,
        )
    } else if status != Some(0i32) {
        (
            "indeterminate — the proof run exited "@ + match status {
                Some(code) => "with code "@ + signed_decimal(code as int),
                None => "via a signal"@,
            } + " (no successful proof observed); no lane is claimed"@,
            None,
        )
    } else {
        (counts_label(c), counts_lane(c))
    }
}

/// Decide the verdict of a run from its lane counts, whether it timed out,
/// and its exit status (`None` when killed by a signal).
pub fn decide_verdict(c: LaneCounts, timed_out: bool, status: Option<i32>, timeout_secs: u64) -> (r: (
    String,
    Option<Lane>,
))
    ensures
        (r.0@, r.1) == run_verdict(c, timed_out, status, timeout_secs),
{
    if timed_out {
        let mut s = owned("indeterminate — timed out after ");
        push_chars(&mut s, &decimal_of(timeout_secs));
        s.append("s before the run completed; see lane_counts/matched_lines");
        (s, None)
    } else if status != Some(0i32) {
        let mut s = owned("indeterminate — the proof run exited ");
        match status {
            Some(code) => {
                s.append("with code ");
                push_chars(&mut s, &signed_decimal_of(code));
            },
            None => s.append("via a signal"),
        }
        s.append(" (no successful proof observed); no lane is claimed");
        (s, None)
    } else {
        let v = c.verdict();
        proof {
            lemma_derived_label(c, v);
        }
        (v.label(), v.effective_lane())
    }
}

/// The command shown in reports.
pub open spec fn shown_command(extra: Option<Seq<char>>) -> Seq<char> {
    "cargo run --release"@ + match extra {
        Some(a) => " -- "@ + a,
        None => seq![],
    }
}

pub fn command_line(extra_args: Option<&str>) -> (r: String)
    ensures
        r@ == shown_command(
            match extra_args {
                Some(a) => Some(a@),
                None => None,
            },
        ),
{
    let mut s = owned("cargo run --release");
    match extra_args {
        Some(a) => {
            s.append(" -- ");
            s.append(a);
        },
        None => {
            assert(s@ =~= s@ + Seq::<char>::empty());
        },
    }
    s
}

/// The argument vector of the `cargo` child: `run --release`, then `--` and the
/// whitespace-separated extra arguments when there are any (no shell).
pub open spec fn cargo_args_for(extra: Option<Seq<char>>) -> Seq<Seq<char>> {
    seq!["run"@, "--release"@] + match extra {
        Some(a) => seq!["--"@] + words(a),
        None => seq![],
    }
}

pub fn cargo_args(extra_args: Option<&str>) -> (r: Vec<String>)
    ensures
        strs(r@) == cargo_args_for(
            match extra_args {
                Some(a) => Some(a@),
                None => None,
            },
        ),
{
    let mut v: Vec<String> = Vec::new();
    v.push(owned("run"));
    v.push(owned("--release"));
    let ghost head = strs(v@);
    assert(head =~= seq!["run"@, "--release"@]);
    match extra_args {
        Some(a) => {
            v.push(owned("--"));
            let ws = words_of(&chars_of(a));
            let mut i: usize = 0;
            while i < ws.len()
                invariant
                    i <= ws.len(),
                    seqs(ws@) == words(a@),
                    strs(v@) == head + seq!["--"@] + seqs(ws@).take(i as int),
                decreases ws.len() - i,
            {
                let t = string_of(&ws[i]);
                let ghost before = strs(v@);
                v.push(t);
                assert(strs(v@) =~= before.push(t@));
                assert(seqs(ws@).take(i + 1) =~= seqs(ws@).take(i as int).push(ws@[i as int]@));
                i = i + 1;
            }
            assert(seqs(ws@).take(i as int) =~= seqs(ws@));
        },
        None => {
            assert(strs(v@) =~= head + Seq::<Seq<char>>::empty());
        },
    }
    v
}

/// The text the scan reads: the captured lines, joined by line feeds.
pub open spec fn combined_text(lines: Seq<String>) -> Seq<char> {
    join(strs(lines), "\n"@)
}

/// The matched lines as stored: redacted when the options ask for it.
pub open spec fn stored_lines(ls: Seq<Seq<char>>, redact: bool, host: HostIdentity) -> Seq<
    Seq<char>,
> {
    if redact {
        ls.map_values(|l: Seq<char>| redacted(l, host))
    } else {
        ls
    }
}

pub open spec fn note_text() -> Seq<char> {
    "verdict derives only from the matched_lines above; if it says indeterminate, no claim is made"@
}

impl ProveReport {
    /// Build the report of an observed run. `project` is the project directory
    /// as displayed, `lines` the captured stdout lines then stderr lines,
    /// `r0vm`/`cargo_risczero` the toolchain version lines the environment
    /// probe found, and the wall time is `wall_secs` s + `wall_subsec_nanos` ns.
    pub fn from_run(
        project: &str,
        extra_args: Option<&str>,
        opts: &ProveOpts,
        r0vm: Option<String>,
        cargo_risczero: Option<String>,
        status_code: Option<i32>,
        timed_out: bool,
        wall_secs: u64,
        wall_subsec_nanos: u32,
        lines: &Vec<String>,
        host: &HostIdentity,
    ) -> (r: ProveReport)
        ensures
            r.target@ == "risc0"@,
            r.project@ == if opts.redact {
                redacted(project@, *host)
            } else {
                project@
            },
            r.command@ == shown_command(
                match extra_args {
                    Some(a) => Some(a@),
                    None => None,
                },
            ),
            r.rust_log@ == opts.rust_log@,
            r.risc0_dev_mode@ == "0"@,
            classified(
                match r0vm {
                    Some(s) => Some(s@),
                    None => None,
                },
                r.risc0_matrix,
            ),
            r.r0vm_version == r0vm,
            r.cargo_risczero_version == cargo_risczero,
            r.exit_code == status_code,
            r.timed_out == timed_out,
            r.timeout_secs == opts.timeout_secs,
            r.wall_secs == wall_secs,
            r.wall_subsec_nanos == wall_subsec_nanos,
            forall|l: Lane|
                #![trigger r.lane_counts.count(l)]
                r.lane_counts.count(l) == lane_lines(clean_lines(combined_text(lines@)), l).len(),
            r.lane_counts.metal + r.lane_counts.cuda + r.lane_counts.cpu <= usize::MAX,
            strs(r.matched_lines@) == stored_lines(
                kept_lines(clean_lines(combined_text(lines@))),
                opts.redact,
                *host,
            ),
            (r.verdict@, r.observed_lane) == run_verdict(
                r.lane_counts,
                timed_out,
                status_code,
                opts.timeout_secs,
            ),
            r.note@ == note_text(),
    {
        let mut parts: Vec<Vec<char>> = Vec::new();
        let mut i: usize = 0;
        while i < lines.len()
            invariant
                i <= lines.len(),
                seqs(parts@) == strs(lines@).take(i as int),
            decreases lines.len() - i,
        {
            let p = chars_of(lines[i].as_str());
            let ghost before = seqs(parts@);
            parts.push(p);
            assert(seqs(parts@) =~= before.push(p@));
            assert(strs(lines@).take(i + 1) =~= strs(lines@).take(i as int).push(lines@[i as int]@));
            i = i + 1;
        }
        assert(strs(lines@).take(i as int) =~= strs(lines@));
        let combined = string_of(&join_chars(&parts, &chars_of("\n")));
        let (lane_counts, raw_matched) = scan(combined.as_str());
        let (verdict, observed_lane) = decide_verdict(
            lane_counts,
            timed_out,
            status_code,
            opts.timeout_secs,
        );
        let mut project_str = owned(project);
        let mut matched_lines: Vec<String> = Vec::new();
        if opts.redact {
            project_str = redact(project, host);
            let mut j: usize = 0;
            while j < raw_matched.len()
                invariant
                    j <= raw_matched.len(),
                    strs(matched_lines@) == strs(raw_matched@).take(j as int).map_values(
                        |l: Seq<char>| redacted(l, *host),
                    ),
                decreases raw_matched.len() - j,
            {
                let t = redact(raw_matched[j].as_str(), host);
                let ghost before = strs(matched_lines@);
                matched_lines.push(t);
                assert(strs(matched_lines@) =~= before.push(t@));
                assert(strs(raw_matched@).take(j + 1).map_values(
                    |l: Seq<char>| redacted(l, *host),
                ) =~= strs(raw_matched@).take(j as int).map_values(
                    |l: Seq<char>| redacted(l, *host),
                ).push(redacted(raw_matched@[j as int]@, *host)));
                j = j + 1;
            }
            assert(strs(raw_matched@).take(j as int) =~= strs(raw_matched@));
        } else {
            matched_lines = raw_matched;
        }
        let risc0_matrix = classify(
            match &r0vm {
                Some(v) => Some(v.as_str()),
                None => None,
            },
        );
        ProveReport {
            target: "risc0",
            project: project_str,
            command: command_line(extra_args),
            rust_log: owned(opts.rust_log.as_str()),
            risc0_dev_mode: owned("0"),
            r0vm_version: r0vm,
            cargo_risczero_version: cargo_risczero,
            risc0_matrix,
            exit_code: status_code,
            timed_out,
            timeout_secs: opts.timeout_secs,
            wall_secs,
            wall_subsec_nanos,
            verdict,
            observed_lane,
            lane_counts,
            matched_lines,
            note: owned(
                "verdict derives only from the matched_lines above; if it says indeterminate, no claim is made",
            ),
        }
    }

    pub open spec fn spec_verdict_short(self) -> Seq<char> {
        if self.timed_out {
            "indeterminate(timeout)"@
        } else if starts_with(self.verdict@, "mixed"@) {
            match self.observed_lane {
                Some(lane) => "mixed→"@ + lane.name(),
                None => "mixed"@,
            }
        } else {
            match self.observed_lane {
                Some(lane) => lane.name() + "-observed"@,
                None => "indeterminate"@,
            }
        }
    }

    /// Compact verdict for one-line summaries (`metal-observed`, `mixed→metal`,
    /// `cpu-observed`, `indeterminate`).
    pub fn verdict_short(&self) -> (r: String)
        ensures
            r@ == self.spec_verdict_short(),
    {
        if self.timed_out {
            return owned("indeterminate(timeout)");
        }
        if starts_with_str(&chars_of(self.verdict.as_str()), "mixed") {
            return match self.observed_lane {
                Some(lane) => cat("mixed→", lane.as_str()),
                None => owned("mixed"),
            };
        }
        match self.observed_lane {
            Some(lane) => cat(lane.as_str(), "-observed"),
            None => owned("indeterminate"),
        }
    }

    /// Process exit code for this report given an optional `--expect`ed lane.
    /// A timed-out run is indeterminate, never a mismatch.
    pub fn exit(&self, expected: Option<Lane>) -> (r: u8)
        ensures
            r == if self.timed_out {
                EXIT_INDETERMINATE
            } else {
                spec_exit_code(self.observed_lane, expected)
            },
    {
        if self.timed_out {
            return EXIT_INDETERMINATE;
        }
        let verdict = match self.observed_lane {
            Some(lane) => Verdict::Observed { lane },
            None => Verdict::Indeterminate,
        };
        exit_code(&verdict, expected)
    }
}

pub open spec fn matched_rows(ls: Seq<Seq<char>>) -> Seq<char>
    decreases ls.len(),
{
    if ls.len() == 0 {
        seq![]
    } else {
        matched_rows(ls.drop_last()) + "    "@ + ls.last() + "\n"@
    }
}

pub open spec fn prove_head(r: ProveReport) -> Seq<char> {
    "risc0 lane observation\n"@ + "  project             "@ + r.project@ + "\n"@
        + "  command             RUST_LOG="@ + r.rust_log@ + " RISC0_DEV_MODE=0 "@ + r.command@
        + "\n"@ + match r.r0vm_version {
        Some(v) => "  r0vm                "@ + v@ + "\n"@,
        None => seq![],
    }
}

pub open spec fn prove_status(r: ProveReport, wall: Seq<char>) -> Seq<char> {
    "  exit code           "@ + match r.exit_code {
        Some(c) => signed_decimal(c as int),
        None => "—"@,
    } + "\n"@ + "  wall time           "@ + wall + "s"@ + (if r.timed_out {
        " (TIMED OUT at "@ + decimal(r.timeout_secs as nat) + "s)"@
    } else {
        seq![]
    }) + "\n"@
}

pub open spec fn prove_findings(r: ProveReport) -> Seq<char> {
    "  lanes seen          metal="@ + decimal(r.lane_counts.metal as nat) + " cuda="@ + decimal(
        r.lane_counts.cuda as nat,
    ) + " cpu="@ + decimal(r.lane_counts.cpu as nat) + "\n"@ + "  verdict             "@
        + r.verdict@ + "\n"@ + "  risc0 finding       "@ + r.risc0_matrix.finding@ + "\n"@
}

pub open spec fn prove_tail(r: ProveReport) -> Seq<char> {
    (if r.matched_lines@.len() == 0 {
        seq![]
    } else {
        "\n  matched lines (the verdict derives only from these):\n"@ + matched_rows(
            strs(r.matched_lines@),
        )
    }) + "\n  "@ + r.note@ + "\n"@
}

/// The human-readable observation of a run, with the wall time shown as
/// `wall` seconds.
pub open spec fn prove_text(r: ProveReport, wall: Seq<char>) -> Seq<char> {
    prove_head(r) + prove_status(r, wall) + prove_findings(r) + prove_tail(r)
}

fn push_matched_rows(s: &mut String, ls: &Vec<String>)
    ensures
        final(s)@ == old(s)@ + matched_rows(strs(ls@)),
{
    let ghost head = s@;
    let mut j: usize = 0;
    assert(matched_rows(strs(ls@).take(0)) =~= Seq::<char>::empty());
    assert(s@ =~= head + matched_rows(strs(ls@).take(0)));
    while j < ls.len()
        invariant
            j <= ls.len(),
            s@ == head + matched_rows(strs(ls@).take(j as int)),
        decreases ls.len() - j,
    {
        proof {
            assert(strs(ls@).take(j + 1).drop_last() =~= strs(ls@).take(j as int));
        }
        s.append("    ");
        s.append(ls[j].as_str());
        s.append("\n");
        assert(s@ =~= head + matched_rows(strs(ls@).take(j + 1)));
        j = j + 1;
    }
    assert(strs(ls@).take(j as int) =~= strs(ls@));
}

fn push_prove_head(s: &mut String, r: &ProveReport)
    ensures
        final(s)@ == old(s)@ + prove_head(*r),
{
    let ghost s0 = s@;
    s.append("risc0 lane observation\n");
    s.append("  project             ");
    s.append(r.project.as_str());
    s.append("\n");
    s.append("  command             RUST_LOG=");
    s.append(r.rust_log.as_str());
    s.append(" RISC0_DEV_MODE=0 ");
    s.append(r.command.as_str());
    s.append("\n");
    match &r.r0vm_version {
        Some(v) => {
            s.append("  r0vm                ");
            s.append(v.as_str());
            s.append("\n");
        },
        None => {},
    }
    assert(s@ =~= s0 + prove_head(*r));
}

fn push_prove_status(s: &mut String, r: &ProveReport, wall: &str)
    ensures
        final(s)@ == old(s)@ + prove_status(*r, wall@),
{
    let ghost s0 = s@;
    s.append("  exit code           ");
    match r.exit_code {
        Some(c) => push_chars(s, &signed_decimal_of(c)),
        None => s.append("—"),
    }
    s.append("\n");
    s.append("  wall time           ");
    s.append(wall);
    s.append("s");
    if r.timed_out {
        s.append(" (TIMED OUT at ");
        push_chars(s, &decimal_of(r.timeout_secs));
        s.append("s)");
    }
    s.append("\n");
    assert(s@ =~= s0 + prove_status(*r, wall@));
}

fn push_prove_findings(s: &mut String, r: &ProveReport)
    ensures
        final(s)@ == old(s)@ + prove_findings(*r),
{
    let ghost s0 = s@;
    s.append("  lanes seen          metal=");
    push_chars(s, &decimal_of(r.lane_counts.metal as u64));
    s.append(" cuda=");
    push_chars(s, &decimal_of(r.lane_counts.cuda as u64));
    s.append(" cpu=");
    push_chars(s, &decimal_of(r.lane_counts.cpu as u64));
    s.append("\n");
    s.append("  verdict             ");
    s.append(r.verdict.as_str());
    s.append("\n");
    s.append("  risc0 finding       ");
    s.append(r.risc0_matrix.finding.as_str());
    s.append("\n");
    assert(s@ =~= s0 + prove_findings(*r));
}

fn push_prove_tail(s: &mut String, r: &ProveReport)
    ensures
        final(s)@ == old(s)@ + prove_tail(*r),
{
    let ghost s0 = s@;
    if r.matched_lines.len() > 0 {
        s.append("\n  matched lines (the verdict derives only from these):\n");
        push_matched_rows(s, &r.matched_lines);
    }
    s.append("\n  ");
    s.append(r.note.as_str());
    s.append("\n");
    assert(s@ =~= s0 + prove_tail(*r));
}

impl ProveReport {
    /// Render the observation for a terminal. `wall` is the wall time in
    /// seconds as it is to be shown (one decimal place).
    pub fn render_human(&self, wall: &str) -> (out: String)
        ensures
            out@ == prove_text(*self, wall@),
    {
        let mut s = String::new();
        push_prove_head(&mut s, self);
        push_prove_status(&mut s, self, wall);
        push_prove_findings(&mut s, self);
        push_prove_tail(&mut s, self);
        assert(s@ =~= prove_text(*self, wall@));
        s
    }
}

/// A run that timed out or did not exit successfully claims no lane, and a
/// run that claims a lane names the lane with the most lines.
pub proof fn law_no_lane_without_success(
    c: LaneCounts,
    timed_out: bool,
    status: Option<i32>,
    timeout_secs: u64,
)
    ensures
        (timed_out || status != Some(0i32)) ==> run_verdict(c, timed_out, status, timeout_secs).1
            is None,
        run_verdict(c, timed_out, status, timeout_secs).1 matches Some(l) ==> {
            &&& !timed_out && status == Some(0i32)
            &&& c.count(l) > 0
            &&& forall|m: Lane| c.count(m) <= c.count(l)
        },
{
    law_head_is_dominant(c);
}

} // verus!
