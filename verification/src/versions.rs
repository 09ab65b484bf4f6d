//! The risc0 version matrix — what keeps the "Metal is unreachable" finding
//! honest as risc0 evolves.
//!
//! The CPU-fallback finding is **version-bound**: it is established firsthand
//! for the risc0-zkvm 3.0.5 / risc0-zkp 3.0.4 / rv32im 4.0.4 trio, where the
//! rv32im segment prover has no reachable Metal branch. It is *not* a timeless
//! claim: upstream PR #3688 adds a real Metal lane, and 5.0.0-rc.1 is a
//! different ("m3") architecture.
//!
//! [`classify`] maps an observed `r0vm`/`cargo-risczero` version to a matrix
//! row, and returns an explicit *indeterminate* for any version not tested
//! here — it never auto-flips to "Metal works".
use crate::text::{
    cat, chars_of, find_char, is_ascii_digit, opt_view, push_chars, starts_with,
    starts_with_str, string_of, words, words_of, seqs,
};
use vstd::prelude::*;

verus! {

broadcast use vstd::string::group_string_axioms;

/// The doctor's conclusion about a given risc0 version, derived from the matrix.
#[derive(Debug, Clone, PartialEq, Eq)]
pub struct Classification {
    pub detected_version: Option<String>,
    /// Stable, scoped statement of the lane finding for this version — or an
    /// honest "not in the tested matrix" when the version is unknown.
    pub finding: String,
    /// Whether this version is one the tool has firsthand evidence for.
    pub in_tested_matrix: bool,
}

/// One row of the tested-against matrix (for `--help`/docs/JSON surfacing).
#[derive(Debug, Clone, Copy)]
pub struct MatrixRow {
    pub versions: &'static str,
    pub channel: &'static str,
    pub finding: &'static str,
}

/// The rows of the tested-against matrix.
pub open spec fn matrix_rows() -> Seq<MatrixRow> {
    seq![
        MatrixRow {
            versions: "risc0-zkvm 3.0.5 / risc0-zkp 3.0.4 / risc0-circuit-rv32im 4.0.4",
            channel: "stable (the doctor's pin)",
            finding: "rv32im has no reachable Metal branch in any feature configuration; proving falls back to CPU. The `metal` feature is inert (maps only to `prove`); the prebuilt r0vm is CPU-only. Established firsthand on Apple Silicon.",
        },
        MatrixRow {
            versions: "risc0-zkvm 5.0.0-rc.1 (and the 5.x line)",
            channel: "prerelease",
            finding: "Different (\"m3\") architecture — rv32im moved to a C++ sys HAL. This tool's 3.0.x/4.0.x file-and-line evidence does NOT apply; re-verify by observation before making any lane claim.",
        },
        MatrixRow {
            versions: "upstream main, PR #3688 (merged 2026-01-30)",
            channel: "unreleased",
            finding: "Adds a real Metal lane for rv32im + recursion. In no tagged release yet. This is the sentinel that will eventually make the CPU-fallback finding false — observe the lane rather than trusting this note.",
        },
    ]
}

/// All known matrix rows, for surfacing in docs/JSON.
pub fn matrix() -> (r: Vec<MatrixRow>)
    ensures
        r@ == matrix_rows(),
{
    let mut v: Vec<MatrixRow> = Vec::new();
    v.push(
        MatrixRow {
            versions: "risc0-zkvm 3.0.5 / risc0-zkp 3.0.4 / risc0-circuit-rv32im 4.0.4",
            channel: "stable (the doctor's pin)",
            finding: "rv32im has no reachable Metal branch in any feature configuration; proving falls back to CPU. The `metal` feature is inert (maps only to `prove`); the prebuilt r0vm is CPU-only. Established firsthand on Apple Silicon.",
        },
    );
    v.push(
        MatrixRow {
            versions: "risc0-zkvm 5.0.0-rc.1 (and the 5.x line)",
            channel: "prerelease",
            finding: "Different (\"m3\") architecture — rv32im moved to a C++ sys HAL. This tool's 3.0.x/4.0.x file-and-line evidence does NOT apply; re-verify by observation before making any lane claim.",
        },
    );
    v.push(
        MatrixRow {
            versions: "upstream main, PR #3688 (merged 2026-01-30)",
            channel: "unreleased",
            finding: "Adds a real Metal lane for rv32im + recursion. In no tagged release yet. This is the sentinel that will eventually make the CPU-fallback finding false — observe the lane rather than trusting this note.",
        },
    );
    assert(v@ =~= matrix_rows());
    v
}

/// `s` without its leading `'v'` characters.
pub open spec fn strip_v(s: Seq<char>) -> Seq<char>
    decreases s.len(),
{
    if s.len() > 0 && s[0] == 'v' {
        strip_v(s.drop_first())
    } else {
        s
    }
}

/// `core` reads as a dotted version: a non-empty run of ASCII digits, a `'.'`,
/// and a digit right after it.
pub open spec fn is_version_core(core: Seq<char>) -> bool {
    let k = find_char(core, '.') as int;
    &&& 0 < k
    &&& k + 1 < core.len()
    &&& forall|i: int| 0 <= i < k ==> is_ascii_digit(#[trigger] core[i])
    &&& is_ascii_digit(core[k + 1])
}

/// The first of `toks` that reads as a version once its leading `'v'`s are
/// dropped, without them.
pub open spec fn first_version(toks: Seq<Seq<char>>) -> Option<Seq<char>>
    decreases toks.len(),
{
    if toks.len() == 0 {
        None
    } else if is_version_core(strip_v(toks[0])) {
        Some(strip_v(toks[0]))
    } else {
        first_version(toks.drop_first())
    }
}

/// The dotted version named in a tool version string, if any.
pub open spec fn version_in(s: Seq<char>) -> Option<Seq<char>> {
    first_version(words(s))
}

fn strip_v_exec(s: &Vec<char>) -> (r: Vec<char>)
    ensures
        r@ == strip_v(s@),
{
    let mut i: usize = 0;
    assert(s@.skip(0) =~= s@);
    while i < s.len() && s[i] == 'v'
        invariant
            i <= s.len(),
            strip_v(s@) == strip_v(s@.skip(i as int)),
        decreases s.len() - i,
    {
        assert(s@.skip(i as int).drop_first() =~= s@.skip(i + 1));
        i = i + 1;
    }
    let mut r: Vec<char> = Vec::new();
    let mut j: usize = i;
    while j < s.len()
        invariant
            i <= j <= s.len(),
            r@ == s@.subrange(i as int, j as int),
        decreases s.len() - j,
    {
        r.push(s[j]);
        assert(s@.subrange(i as int, j + 1) =~= s@.subrange(i as int, j as int).push(
            s@[j as int],
        ));
        j = j + 1;
    }
    assert(s@.subrange(i as int, s.len() as int) =~= s@.skip(i as int));
    r
}

proof fn lemma_find_char_prefix(s: Seq<char>, c: char, k: int)
    requires
        0 <= k <= s.len(),
        forall|i: int| 0 <= i < k ==> s[i] != c,
        k == s.len() || s[k] == c,
    ensures
        find_char(s, c) == k,
    decreases k,
{
    if k > 0 {
        lemma_find_char_prefix(s.drop_first(), c, k - 1);
    }
}

fn is_version_core_exec(core: &Vec<char>) -> (r: bool)
    ensures
        r == is_version_core(core@),
{
    let mut k: usize = 0;
    while k < core.len() && core[k] != '.'
        invariant
            k <= core.len(),
            forall|i: int| 0 <= i < k ==> core@[i] != '.',
        decreases core.len() - k,
    {
        k = k + 1;
    }
    proof {
        lemma_find_char_prefix(core@, '.', k as int);
    }
    if k == 0 || k >= core.len() - 1 {
        return false;
    }
    let mut i: usize = 0;
    while i < k
        invariant
            i <= k < core.len(),
            find_char(core@, '.') == k,
            forall|j: int| 0 <= j < i ==> is_ascii_digit(#[trigger] core@[j]),
        decreases k - i,
    {
        if !('0' <= core[i] && core[i] <= '9') {
            assert(!is_ascii_digit(core@[i as int]));
            return false;
        }
        i = i + 1;
    }
    '0' <= core[k + 1] && core[k + 1] <= '9'
}

/// Extract a dotted version (e.g. `3.0.5`) from a tool version string like
/// `risc0-r0vm 3.0.5` or `cargo-risczero 3.0.5 (abcdef0 2026-02-03)`.
pub fn extract_semver(s: &str) -> (r: Option<String>)
    ensures
        opt_view(r) == version_in(s@),
{
    let sv = chars_of(s);
    let toks = words_of(&sv);
    let mut i: usize = 0;
    assert(seqs(toks@).skip(0) =~= seqs(toks@));
    while i < toks.len()
        invariant
            i <= toks.len(),
            seqs(toks@) == words(s@),
            version_in(s@) == first_version(seqs(toks@).skip(i as int)),
        decreases toks.len() - i,
    {
        let core = strip_v_exec(&toks[i]);
        proof {
            assert(seqs(toks@).skip(i as int)[0] == toks@[i as int]@);
            assert(seqs(toks@).skip(i as int).drop_first() =~= seqs(toks@).skip(i + 1));
        }
        if is_version_core_exec(&core) {
            return Some(string_of(&core));
        }
        i = i + 1;
    }
    assert(seqs(toks@).skip(i as int) =~= Seq::<Seq<char>>::empty());
    None
}

/// The finding stated for a detected version (or for none).
pub open spec fn finding_for(detected: Option<Seq<char>>) -> Seq<char> {
    match detected {
        Some(v) => if starts_with(v, "3.0."@) {
            "risc0 3.0.x: rv32im has no reachable Metal branch; proving runs on CPU on Apple Silicon (firsthand-established for 3.0.5/3.0.4/4.0.4)."@
        } else if starts_with(v, "5."@) {
            "risc0 "@ + v
                + ": the 5.x line is a different (m3) architecture (rv32im moved to a C++ sys HAL). This tool's 3.0.x evidence does not apply; observe the run rather than trusting the version."@
        } else {
            "risc0 "@ + v
                + ": not in the tested matrix — no Metal/CPU claim is made from the version; run `prove` to observe the lane."@
        },
        None => "risc0 version not detected — install the toolchain (rzup) and run `prove` to observe the lane."@,
    }
}

/// The classification of an (optional) observed version string.
pub open spec fn classified(version: Option<Seq<char>>, c: Classification) -> bool {
    let detected = match version {
        Some(s) => version_in(s),
        None => None,
    };
    &&& opt_view(c.detected_version) == detected
    &&& c.finding@ == finding_for(detected)
    &&& c.in_tested_matrix == (detected matches Some(v) && starts_with(v, "3.0."@))
}

/// Classify an observed risc0 version string against the matrix.
pub fn classify(version_string: Option<&str>) -> (c: Classification)
    ensures
        classified(
            match version_string {
                Some(s) => Some(s@),
                None => None,
            },
            c,
        ),
{
    let detected = match version_string {
        Some(s) => extract_semver(s),
        None => None,
    };
    let (finding, in_tested_matrix) = match &detected {
        Some(v) => {
            let vv = chars_of(v.as_str());
            if starts_with_str(&vv, "3.0.") {
                (
                    string_of(
                        &chars_of(
                            "risc0 3.0.x: rv32im has no reachable Metal branch; proving runs on CPU on Apple Silicon (firsthand-established for 3.0.5/3.0.4/4.0.4).",
                        ),
                    ),
                    true,
                )
            } else if starts_with_str(&vv, "5.") {
                let mut f = cat("risc0 ", v.as_str());
                f.append(
                    ": the 5.x line is a different (m3) architecture (rv32im moved to a C++ sys HAL). This tool's 3.0.x evidence does not apply; observe the run rather than trusting the version.",
                );
                (f, false)
            } else {
                let mut f = cat("risc0 ", v.as_str());
                f.append(
                    ": not in the tested matrix — no Metal/CPU claim is made from the version; run `prove` to observe the lane.",
                );
                (f, false)
            }
        },
        None => (
            string_of(
                &chars_of(
                    "risc0 version not detected — install the toolchain (rzup) and run `prove` to observe the lane.",
                ),
            ),
            false,
        ),
    };
    Classification { detected_version: detected, finding, in_tested_matrix }
}

/// What is claimed of a version is decided by its version line: a detected
/// version starting `3.0.` is in the tested matrix and gets the CPU finding;
/// one starting `5.` is not, and gets the 5.x-architecture finding naming it;
/// any other detected version is not in the matrix and no claim is made; and
/// with no version detected the finding says so.
pub proof fn law_finding_by_version_line(version: Option<Seq<char>>, c: Classification)
    requires
        classified(version, c),
    ensures
        ({
            let detected = match version {
                Some(s) => version_in(s),
                None => None,
            };
            match detected {
                Some(v) => {
                    &&& starts_with(v, "3.0."@) ==> {
                        &&& c.in_tested_matrix
                        &&& c.finding@
                            == "risc0 3.0.x: rv32im has no reachable Metal branch; proving runs on CPU on Apple Silicon (firsthand-established for 3.0.5/3.0.4/4.0.4)."@
                    }
                    &&& starts_with(v, "5."@) ==> {
                        &&& !c.in_tested_matrix
                        &&& c.finding@ == "risc0 "@ + v
                            + ": the 5.x line is a different (m3) architecture (rv32im moved to a C++ sys HAL). This tool's 3.0.x evidence does not apply; observe the run rather than trusting the version."@
                    }
                    &&& (!starts_with(v, "3.0."@) && !starts_with(v, "5."@)) ==> {
                        &&& !c.in_tested_matrix
                        &&& c.finding@ == "risc0 "@ + v
                            + ": not in the tested matrix — no Metal/CPU claim is made from the version; run `prove` to observe the lane."@
                    }
                },
                None => {
                    &&& !c.in_tested_matrix
                    &&& c.finding@
                        == "risc0 version not detected — install the toolchain (rzup) and run `prove` to observe the lane."@
                },
            }
        }),
{
    reveal_strlit("3.0.");
    reveal_strlit("5.");
    let detected = match version {
        Some(s) => version_in(s),
        None => None,
    };
    if let Some(v) = detected {
        if starts_with(v, "5."@) {
            assert(v[0] == "5."@[0]);
            if starts_with(v, "3.0."@) {
                assert(v[0] == "3.0."@[0]);
            }
        }
    }
}

} // verus!
