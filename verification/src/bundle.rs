//! `bundle` — a timestamped, redacted evidence directory.
//!
//! One command writes device facts, host env, the proving-target registry, the
//! Midnight observation, and (with a project) a risc0 lane observation, plus a
//! one-line summary. Redacted by default — home paths and username are
//! stripped — so the directory is safe to attach to a public issue. The caller
//! writes the files; this module names the directory and composes the text.
use crate::prove::{ProveOpts, ProveReport};
use crate::text::{cat, chars_of, decimal, decimal_of, join, join_chars, owned, push_chars, seqs, strs};
use vstd::prelude::*;

verus! {

broadcast use vstd::string::group_string_axioms;

#[derive(Debug)]
pub struct BundleOpts {
    pub out_dir: Option<String>,
    pub project: Option<String>,
    pub timeout_secs: u64,
    pub redact: bool,
}

impl BundleOpts {
    /// How the optional proof run is observed: at `debug`, with this bundle's
    /// budget and redaction.
    pub fn prove_opts(&self) -> (r: ProveOpts)
        ensures
            r.rust_log@ == "debug"@,
            r.timeout_secs == self.timeout_secs,
            r.redact == self.redact,
    {
        ProveOpts { rust_log: owned("debug"), timeout_secs: self.timeout_secs, redact: self.redact }
    }
}

/// The bundle directory's name for a Unix time in seconds.
pub fn dir_name(epoch: u64) -> (r: String)
    ensures
        r@ == "r0-metal-doctor-bundle-"@ + decimal(epoch as nat),
{
    let mut s = owned("r0-metal-doctor-bundle-");
    push_chars(&mut s, &decimal_of(epoch));
    s
}

pub open spec fn spec_redaction_note(redact: bool) -> Seq<char> {
    if redact {
        "All files in this bundle are REDACTED (home paths -> ~, username -> <user>). Safe to attach to a public bug report. Re-run with --no-redact for an unredacted local copy."@
    } else {
        "WARNING: generated with --no-redact — may contain your home path and username. Review before sharing publicly."@
    }
}

pub fn redaction_note(redact: bool) -> (r: &'static str)
    ensures
        r@ == spec_redaction_note(redact),
{
    if redact {
        "All files in this bundle are REDACTED (home paths -> ~, username -> <user>). Safe to attach to a public bug report. Re-run with --no-redact for an unredacted local copy."
    } else {
        "WARNING: generated with --no-redact — may contain your home path and username. Review before sharing publicly."
    }
}

pub open spec fn files_text() -> Seq<char> {
    "Files:\n  device.json        Metal GPU device facts\n  env.json           host toolchain + env vars\n  targets.json       proving targets + per-lane honesty badges\n  midnight.json      Midnight target observation (CPU-only, Metal N/A)\n  prove.json         risc0 lane observation (present if --project was given)\n  prove-matched.log  the matched lane lines, verbatim (ANSI-stripped)\n  summary.txt        the one-line summary\n"@
}

/// The bundle's README: a title, the summary line, the redaction note and the
/// list of files.
pub fn readme(summary: &str, redact: bool) -> (r: String)
    ensures
        r@ == "r0-metal-doctor evidence bundle\n\n"@ + summary@ + "\n\n"@ + spec_redaction_note(
            redact,
        ) + "\n\n"@ + files_text(),
{
    let mut s = cat("r0-metal-doctor evidence bundle\n\n", summary);
    s.append("\n\n");
    s.append(redaction_note(redact));
    s.append("\n\n");
    s.append(
        "Files:\n  device.json        Metal GPU device facts\n  env.json           host toolchain + env vars\n  targets.json       proving targets + per-lane honesty badges\n  midnight.json      Midnight target observation (CPU-only, Metal N/A)\n  prove.json         risc0 lane observation (present if --project was given)\n  prove-matched.log  the matched lane lines, verbatim (ANSI-stripped)\n  summary.txt        the one-line summary\n",
    );
    s
}

/// The text of `summary.txt`: the summary line and a line feed.
pub fn summary_file(summary: &str) -> (r: String)
    ensures
        r@ == summary@ + "\n"@,
{
    cat(summary, "\n")
}

/// The text of `prove-matched.log`: the matched lines, one per line.
pub fn matched_log(r: &ProveReport) -> (out: String)
    ensures
        out@ == join(strs(r.matched_lines@), "\n"@),
{
    let mut parts: Vec<Vec<char>> = Vec::new();
    let mut i: usize = 0;
    while i < r.matched_lines.len()
        invariant
            i <= r.matched_lines.len(),
            seqs(parts@) == strs(r.matched_lines@).take(i as int),
        decreases r.matched_lines.len() - i,
    {
        let p = chars_of(r.matched_lines[i].as_str());
        let ghost before = seqs(parts@);
        parts.push(p);
        assert(seqs(parts@) =~= before.push(p@));
        assert(strs(r.matched_lines@).take(i + 1) =~= strs(r.matched_lines@).take(i as int).push(
            r.matched_lines@[i as int]@,
        ));
        i = i + 1;
    }
    assert(strs(r.matched_lines@).take(i as int) =~= strs(r.matched_lines@));
    let mut s = String::new();
    push_chars(&mut s, &join_chars(&parts, &chars_of("\n")));
    s
}

} // verus!
