//! Compute-lane vocabulary, observed-lane verdicts, and CI exit-code mapping.
//!
//! A "lane" is the compute backend a prover actually ran on (Metal GPU, CUDA
//! GPU, or CPU). The doctor only ever names a lane it observed in real logs —
//! see [`Verdict`], which keeps an honest `Indeterminate` state instead of
//! guessing, and [`LaneCounts::verdict`], which reports the *dominant* lane of a
//! mixed run rather than collapsing a genuine hybrid (mostly-GPU + a few CPU
//! kernel lines) into an uninformative "mixed".
use crate::sanitize::{spec_strip_ansi, strip_ansi};
use crate::text::{
    cat, chars_of, contains, contains_str, join, join_chars, lines, lines_of, lower, lower_chars,
    owned, push_chars, seqs, starts_with, starts_with_str, string_of, strs, trim, trim_chars,
    trim_start, trim_start_chars,
};
use vstd::prelude::*;

verus! {

broadcast use vstd::string::group_string_axioms;

/// A compute lane a prover can execute on.
#[derive(Debug, Clone, Copy, PartialEq, Eq, Structural)]
pub enum Lane {
    Metal,
    Cuda,
    Cpu,
}

impl Lane {
    /// The lane's lower-case name.
    pub open spec fn name(self) -> Seq<char> {
        match self {
            Lane::Metal => "metal"@,
            Lane::Cuda => "cuda"@,
            Lane::Cpu => "cpu"@,
        }
    }

    /// Tie-break order among lanes with equal counts: Metal, then Cuda, then Cpu.
    pub open spec fn rank(self) -> int {
        match self {
            Lane::Metal => 0,
            Lane::Cuda => 1,
            Lane::Cpu => 2,
        }
    }

    pub fn as_str(self) -> (r: &'static str)
        ensures
            r@ == self.name(),
    {
        match self {
            Lane::Metal => "metal",
            Lane::Cuda => "cuda",
            Lane::Cpu => "cpu",
        }
    }
}

/// Per-lane line counts gathered from a captured proof run.
#[derive(Debug, Clone, Copy, PartialEq, Eq, Structural)]
pub struct LaneCounts {
    pub metal: usize,
    pub cuda: usize,
    pub cpu: usize,
}

impl Default for LaneCounts {
    fn default() -> (r: LaneCounts)
        ensures
            r.metal == 0 && r.cuda == 0 && r.cpu == 0,
    {
        LaneCounts { metal: 0, cuda: 0, cpu: 0 }
    }
}

/// The lanes of a list of (lane, count) pairs.
pub open spec fn lanes_in(v: Seq<(Lane, usize)>) -> Seq<Lane> {
    v.map_values(|p: (Lane, usize)| p.0)
}

/// `a` is listed before `b` in a ranking: more lines first, ties in lane order.
pub open spec fn precedes(c: LaneCounts, a: Lane, b: Lane) -> bool {
    c.count(a) > c.count(b) || (c.count(a) == c.count(b) && a.rank() < b.rank())
}

/// `s` is strictly ordered by [`precedes`].
pub open spec fn sorted_by_rank(c: LaneCounts, s: Seq<Lane>) -> bool {
    forall|i: int, j: int| 0 <= i < j < s.len() ==> precedes(c, #[trigger] s[i], #[trigger] s[j])
}

/// `s` lists exactly the lanes with at least one line, most lines first, ties
/// in Metal > Cuda > Cpu order.
pub open spec fn is_ranking(c: LaneCounts, s: Seq<Lane>) -> bool {
    &&& forall|l: Lane| s.contains(l) <==> c.count(l) > 0
    &&& sorted_by_rank(c, s)
}

/// The ranking of the observed lanes of `c` (it exists and is unique, see
/// [`lemma_ranking_unique`]).
pub open spec fn ranked_lanes(c: LaneCounts) -> Seq<Lane> {
    choose|s: Seq<Lane>| is_ranking(c, s)
}

impl LaneCounts {
    /// Lines counted for lane `l`.
    pub open spec fn count(self, l: Lane) -> nat {
        match l {
            Lane::Metal => self.metal as nat,
            Lane::Cuda => self.cuda as nat,
            Lane::Cpu => self.cpu as nat,
        }
    }

    pub open spec fn spec_total(self) -> nat {
        (self.metal + self.cuda + self.cpu) as nat
    }

    pub fn total(self) -> (r: usize)
        requires
            self.metal + self.cuda + self.cpu <= usize::MAX,
        ensures
            r == self.spec_total(),
    {
        self.metal + self.cuda + self.cpu
    }

    /// Lanes with at least one observed line, ordered by count descending; ties
    /// keep Metal > Cuda > Cpu order. Used to pick the dominant lane.
    fn ranked(self) -> (r: Vec<(Lane, usize)>)
        ensures
            is_ranking(self, lanes_in(r@)),
            forall|i: int| 0 <= i < r@.len() ==> (#[trigger] r@[i]).1 == self.count(r@[i].0),
    {
        let mut v: Vec<(Lane, usize)> = Vec::new();
        if self.metal > 0 {
            insert_ranked(self, &mut v, Lane::Metal, self.metal);
        }
        if self.cuda > 0 {
            insert_ranked(self, &mut v, Lane::Cuda, self.cuda);
        }
        if self.cpu > 0 {
            insert_ranked(self, &mut v, Lane::Cpu, self.cpu);
        }
        proof {
            let s = lanes_in(v@);
            assert forall|l: Lane| s.contains(l) <==> self.count(l) > 0 by {
                if self.count(l) > 0 {
                    assert(s.contains(l));
                }
            }
        }
        v
    }

    /// Derive a verdict from the counts. One lane → `Observed`; several →
    /// `Mixed` with the most-frequent lane as `dominant`; none → `Indeterminate`.
    pub fn verdict(self) -> (v: Verdict)
        ensures
            v.derived_from(self),
    {
        let r = self.ranked();
        let ghost s = lanes_in(r@);
        proof {
            lemma_ranking_unique(self, s, ranked_lanes(self));
        }
        if r.len() == 0 {
            Verdict::Indeterminate
        } else if r.len() == 1 {
            Verdict::Observed { lane: r[0].0 }
        } else {
            let mut lanes: Vec<Lane> = Vec::new();
            let mut i: usize = 0;
            while i < r.len()
                invariant
                    i <= r.len(),
                    lanes@ == s.take(i as int),
                    s == lanes_in(r@),
                decreases r.len() - i,
            {
                lanes.push(r[i].0);
                assert(s.take(i + 1) =~= s.take(i as int).push(s[i as int]));
                i = i + 1;
            }
            assert(s.take(r.len() as int) =~= s);
            Verdict::Mixed { dominant: r[0].0, lanes }
        }
    }
}

/// Inserts `lane` (with `n` lines) into the ranking prefix `v`, after every
/// entry that it does not precede. Lanes are inserted in lane order.
fn insert_ranked(c: LaneCounts, v: &mut Vec<(Lane, usize)>, lane: Lane, n: usize)
    requires
        n > 0,
        n == c.count(lane),
        sorted_by_rank(c, lanes_in(old(v)@)),
        forall|i: int|
            0 <= i < old(v)@.len() ==> (#[trigger] old(v)@[i]).1 == c.count(old(v)@[i].0) && old(
                v,
            )@[i].0.rank() < lane.rank() && old(v)@[i].1 > 0,
    ensures
        sorted_by_rank(c, lanes_in(final(v)@)),
        forall|i: int|
            0 <= i < final(v)@.len() ==> (#[trigger] final(v)@[i]).1 == c.count(final(v)@[i].0)
                && final(v)@[i].1 > 0 && final(v)@[i].0.rank() <= lane.rank(),
        forall|l: Lane|
            #[trigger] lanes_in(final(v)@).contains(l) <==> (lanes_in(old(v)@).contains(l) || l == lane),
{
    let ghost old_v = v@;
    let ghost old_s = old_v.map_values(|p: (Lane, usize)| p.0);
    let mut j: usize = 0;
    while j < v.len() && v[j].1 >= n
        invariant
            j <= v.len(),
            v@ == old_v,
            forall|k: int| 0 <= k < j ==> (#[trigger] v@[k]).1 >= n,
        decreases v.len() - j,
    {
        j = j + 1;
    }
    v.insert(j, (lane, n));
    proof {
        let s = lanes_in(v@);
        assert forall|a: int, b: int| 0 <= a < b < s.len() implies precedes(
            c,
            #[trigger] s[a],
            #[trigger] s[b],
        ) by {
            if b < j {
                assert(s[a] == old_s[a] && s[b] == old_s[b]);
            } else if b == j {
                assert(s[a] == old_s[a]);
                assert(old_v[a].1 >= n);
            } else if a == j {
                assert(s[b] == old_s[b - 1]);
                assert(old_v[j as int].1 < n);
                if b - 1 > j {
                    assert(precedes(c, old_s[j as int], old_s[b - 1]));
                }
            } else if a < j {
                assert(s[a] == old_s[a] && s[b] == old_s[b - 1]);
            } else {
                assert(s[a] == old_s[a - 1] && s[b] == old_s[b - 1]);
            }
        }
        assert forall|l: Lane| s.contains(l) <==> (old_s.contains(l) || l == lane) by {
            if s.contains(l) {
                let k = choose|k: int| 0 <= k < s.len() && s[k] == l;
                if k < j {
                    assert(old_s[k] == l);
                } else if k > j {
                    assert(old_s[k - 1] == l);
                }
            }
            if old_s.contains(l) {
                let k = choose|k: int| 0 <= k < old_s.len() && old_s[k] == l;
                if k < j {
                    assert(s[k] == l);
                } else {
                    assert(s[k + 1] == l);
                }
            }
            if l == lane {
                assert(s[j as int] == l);
            }
        }
    }
}

/// Two sorted sequences with the same lanes are the same sequence.
proof fn lemma_sorted_unique(c: LaneCounts, s1: Seq<Lane>, s2: Seq<Lane>)
    requires
        sorted_by_rank(c, s1),
        sorted_by_rank(c, s2),
        forall|l: Lane| s1.contains(l) <==> s2.contains(l),
    ensures
        s1 == s2,
    decreases s1.len(),
{
    if s1.len() == 0 {
        if s2.len() > 0 {
            assert(s2.contains(s2[0]));
        }
        assert(s1 =~= s2);
    } else {
        assert(s1.contains(s1[0]));
        let a = s1[0];
        let b = s2[0];
        if a != b {
            let j = choose|j: int| 0 <= j < s2.len() && s2[j] == a;
            assert(s2.contains(b));
            let k = choose|k: int| 0 <= k < s1.len() && s1[k] == b;
            assert(precedes(c, s2[0], s2[j]));
            assert(precedes(c, s1[0], s1[k]));
        }
        let t1 = s1.drop_first();
        let t2 = s2.drop_first();
        assert(sorted_by_rank(c, t1)) by {
            assert forall|i: int, j: int| 0 <= i < j < t1.len() implies precedes(
                c,
                #[trigger] t1[i],
                #[trigger] t1[j],
            ) by {
                assert(t1[i] == s1[i + 1] && t1[j] == s1[j + 1]);
            }
        }
        assert(sorted_by_rank(c, t2)) by {
            assert forall|i: int, j: int| 0 <= i < j < t2.len() implies precedes(
                c,
                #[trigger] t2[i],
                #[trigger] t2[j],
            ) by {
                assert(t2[i] == s2[i + 1] && t2[j] == s2[j + 1]);
            }
        }
        assert forall|l: Lane| t1.contains(l) <==> t2.contains(l) by {
            if t1.contains(l) {
                let k = choose|k: int| 0 <= k < t1.len() && t1[k] == l;
                assert(s1[k + 1] == l);
                assert(precedes(c, s1[0], s1[k + 1]));
                assert(s2.contains(l));
                let m = choose|m: int| 0 <= m < s2.len() && s2[m] == l;
                assert(m != 0);
                assert(t2[m - 1] == l);
            }
            if t2.contains(l) {
                let k = choose|k: int| 0 <= k < t2.len() && t2[k] == l;
                assert(s2[k + 1] == l);
                assert(precedes(c, s2[0], s2[k + 1]));
                assert(s1.contains(l));
                let m = choose|m: int| 0 <= m < s1.len() && s1[m] == l;
                assert(m != 0);
                assert(t1[m - 1] == l);
            }
        }
        lemma_sorted_unique(c, t1, t2);
        assert(s1 =~= seq![a] + t1);
        assert(s2 =~= seq![b] + t2);
    }
}

/// The ranking of a count triple is unique: any ranking is [`ranked_lanes`].
pub proof fn lemma_ranking_unique(c: LaneCounts, s: Seq<Lane>, t: Seq<Lane>)
    requires
        is_ranking(c, s),
    ensures
        is_ranking(c, ranked_lanes(c)),
        ranked_lanes(c) == s,
        is_ranking(c, t) ==> t == s,
{
    lemma_sorted_unique(c, s, ranked_lanes(c));
    if is_ranking(c, t) {
        lemma_sorted_unique(c, s, t);
    }
}

/// Inserting `lane` (ranked after every lane of `s`) into the sorted `s` keeps
/// it sorted; returns the result.
proof fn lemma_insert_sorted(c: LaneCounts, s: Seq<Lane>, lane: Lane) -> (t: Seq<Lane>)
    requires
        sorted_by_rank(c, s),
        forall|i: int| 0 <= i < s.len() ==> (#[trigger] s[i]).rank() < lane.rank(),
    ensures
        sorted_by_rank(c, t),
        forall|l: Lane| #[trigger] t.contains(l) <==> (s.contains(l) || l == lane),
        forall|i: int| 0 <= i < t.len() ==> (#[trigger] t[i]).rank() <= lane.rank(),
    decreases s.len(),
{
    if s.len() == 0 {
        let t = seq![lane];
        assert forall|l: Lane| #[trigger] t.contains(l) <==> (s.contains(l) || l == lane) by {
            if l == lane {
                assert(t[0] == l);
            }
        }
        t
    } else if precedes(c, lane, s[0]) {
        let t = seq![lane] + s;
        assert forall|a: int, b: int| 0 <= a < b < t.len() implies precedes(
            c,
            #[trigger] t[a],
            #[trigger] t[b],
        ) by {
            if a == 0 {
                if b > 1 {
                    assert(precedes(c, s[0], s[b - 1]));
                }
            } else {
                assert(t[a] == s[a - 1] && t[b] == s[b - 1]);
            }
        }
        assert forall|l: Lane| #[trigger] t.contains(l) <==> (s.contains(l) || l == lane) by {
            if t.contains(l) {
                let k = choose|k: int| 0 <= k < t.len() && t[k] == l;
                if k > 0 {
                    assert(s[k - 1] == l);
                }
            }
            if s.contains(l) {
                let k = choose|k: int| 0 <= k < s.len() && s[k] == l;
                assert(t[k + 1] == l);
            }
            if l == lane {
                assert(t[0] == l);
            }
        }
        t
    } else {
        let rest = s.drop_first();
        assert(sorted_by_rank(c, rest)) by {
            assert forall|a: int, b: int| 0 <= a < b < rest.len() implies precedes(
                c,
                #[trigger] rest[a],
                #[trigger] rest[b],
            ) by {
                assert(rest[a] == s[a + 1] && rest[b] == s[b + 1]);
            }
        }
        let t2 = lemma_insert_sorted(c, rest, lane);
        let t = seq![s[0]] + t2;
        assert forall|a: int, b: int| 0 <= a < b < t.len() implies precedes(
            c,
            #[trigger] t[a],
            #[trigger] t[b],
        ) by {
            if a == 0 {
                let x = t2[b - 1];
                assert(t2.contains(x));
                if x == lane {
                    assert(s[0].rank() < lane.rank());
                } else {
                    assert(rest.contains(x));
                    let k = choose|k: int| 0 <= k < rest.len() && rest[k] == x;
                    assert(precedes(c, s[0], s[k + 1]));
                }
            } else {
                assert(t[a] == t2[a - 1] && t[b] == t2[b - 1]);
            }
        }
        assert forall|l: Lane| #[trigger] t.contains(l) <==> (s.contains(l) || l == lane) by {
            if t.contains(l) {
                let k = choose|k: int| 0 <= k < t.len() && t[k] == l;
                if k > 0 {
                    assert(t2[k - 1] == l);
                    assert(t2.contains(l));
                    if rest.contains(l) {
                        let m = choose|m: int| 0 <= m < rest.len() && rest[m] == l;
                        assert(s[m + 1] == l);
                    }
                } else {
                    assert(s[0] == l);
                }
            }
            if s.contains(l) {
                let k = choose|k: int| 0 <= k < s.len() && s[k] == l;
                if k == 0 {
                    assert(t[0] == l);
                } else {
                    assert(rest[k - 1] == l);
                    assert(rest.contains(l));
                    assert(t2.contains(l));
                    let m = choose|m: int| 0 <= m < t2.len() && t2[m] == l;
                    assert(t[m + 1] == l);
                }
            }
            if l == lane {
                assert(t2.contains(l));
                let m = choose|m: int| 0 <= m < t2.len() && t2[m] == l;
                assert(t[m + 1] == l);
            }
        }
        assert forall|i: int| 0 <= i < t.len() implies (#[trigger] t[i]).rank() <= lane.rank() by {
            if i > 0 {
                assert(t[i] == t2[i - 1]);
            }
        }
        t
    }
}

/// Every count triple has a ranking, so [`ranked_lanes`] is one.
pub proof fn lemma_ranking_exists(c: LaneCounts)
    ensures
        is_ranking(c, ranked_lanes(c)),
{
    let s0: Seq<Lane> = seq![];
    let s1 = if c.metal > 0 {
        lemma_insert_sorted(c, s0, Lane::Metal)
    } else {
        s0
    };
    let s2 = if c.cuda > 0 {
        lemma_insert_sorted(c, s1, Lane::Cuda)
    } else {
        s1
    };
    let s3 = if c.cpu > 0 {
        lemma_insert_sorted(c, s2, Lane::Cpu)
    } else {
        s2
    };
    assert forall|l: Lane| s3.contains(l) <==> c.count(l) > 0 by {
        if s2.contains(l) {
            assert(s3.contains(l));
        }
        if s1.contains(l) {
            assert(s2.contains(l));
        }
    }
    assert(is_ranking(c, s3));
}

/// The head of the ranking ran the most lines (ties go to Metal, then CUDA);
/// the ranking is empty exactly when no line was counted.
pub proof fn law_head_is_dominant(c: LaneCounts)
    ensures
        (ranked_lanes(c).len() == 0) <==> c.spec_total() == 0,
        ranked_lanes(c).len() > 0 ==> {
            let l = ranked_lanes(c)[0];
            &&& c.count(l) > 0
            &&& forall|m: Lane| c.count(m) <= c.count(l)
            &&& forall|m: Lane| c.count(m) == c.count(l) && m != l ==> l.rank() < m.rank()
        },
{
    lemma_ranking_exists(c);
    let r = ranked_lanes(c);
    if c.spec_total() > 0 {
        if c.metal > 0 {
            assert(r.contains(Lane::Metal));
        } else if c.cuda > 0 {
            assert(r.contains(Lane::Cuda));
        } else {
            assert(r.contains(Lane::Cpu));
        }
    } else if r.len() > 0 {
        assert(r.contains(r[0]));
    }
    if r.len() > 0 {
        let l = r[0];
        assert(r.contains(l));
        assert forall|m: Lane| c.count(m) <= c.count(l) by {
            if c.count(m) > 0 {
                assert(r.contains(m));
                let k = choose|k: int| 0 <= k < r.len() && r[k] == m;
                if k > 0 {
                    assert(precedes(c, r[0], r[k]));
                }
            }
        }
        assert forall|m: Lane| c.count(m) == c.count(l) && m != l implies l.rank() < m.rank() by {
            assert(r.contains(m));
            let k = choose|k: int| 0 <= k < r.len() && r[k] == m;
            assert(k != 0);
            assert(precedes(c, r[0], r[k]));
        }
    }
}

/// What the doctor concluded about the prover lane. Derived only from observed
/// log lines; never inferred from configuration.
#[derive(Debug, Clone, PartialEq, Eq)]
pub enum Verdict {
    /// Exactly one lane appeared in the logs.
    Observed { lane: Lane },
    /// Multiple lanes appeared. `dominant` ran the most lines; `lanes` lists all
    /// observed, most-frequent first.
    Mixed { dominant: Lane, lanes: Vec<Lane> },
    /// No prover-lane lines were captured. No claim is made.
    Indeterminate,
}

/// The names of the lanes of `lanes` other than `d`, in order.
pub open spec fn other_names(lanes: Seq<Lane>, d: Lane) -> Seq<Seq<char>>
    decreases lanes.len(),
{
    if lanes.len() == 0 {
        seq![]
    } else {
        let p = other_names(lanes.drop_last(), d);
        if lanes.last() != d {
            p.push(lanes.last().name())
        } else {
            p
        }
    }
}

impl Verdict {
    /// This verdict is the one that the counts `c` call for.
    pub open spec fn derived_from(self, c: LaneCounts) -> bool {
        let r = ranked_lanes(c);
        &&& is_ranking(c, r)
        &&& match self {
            Verdict::Indeterminate => r.len() == 0,
            Verdict::Observed { lane } => r.len() == 1 && lane == r[0],
            Verdict::Mixed { dominant, lanes } => r.len() >= 2 && lanes@ == r && dominant == r[0],
        }
    }

    pub open spec fn spec_effective_lane(self) -> Option<Lane> {
        match self {
            Verdict::Observed { lane } => Some(lane),
            Verdict::Mixed { dominant, .. } => Some(dominant),
            Verdict::Indeterminate => None,
        }
    }

    pub open spec fn spec_label(self) -> Seq<char> {
        match self {
            Verdict::Observed { lane } => lane.name() + "-observed"@,
            Verdict::Mixed { dominant, lanes } => "mixed — dominant "@ + dominant.name()
                + " (also: "@ + join(other_names(lanes@, dominant), ", "@) + ")"@,
            Verdict::Indeterminate => "indeterminate — no prover-selection lines captured; rerun with RUST_LOG=debug"@,
        }
    }

    /// The lane to compare against `--expect` — the dominant one, if any.
    pub fn effective_lane(&self) -> (r: Option<Lane>)
        ensures
            r == self.spec_effective_lane(),
    {
        match self {
            Verdict::Observed { lane } => Some(*lane),
            Verdict::Mixed { dominant, .. } => Some(*dominant),
            Verdict::Indeterminate => None,
        }
    }

    /// Label (`"metal-observed"`, `"indeterminate — …"`, `"mixed — …"`) for
    /// human and JSON continuity.
    pub fn label(&self) -> (r: String)
        ensures
            r@ == self.spec_label(),
    {
        match self {
            Verdict::Observed { lane } => cat(lane.as_str(), "-observed"),
            Verdict::Mixed { dominant, lanes } => {
                let mut names: Vec<Vec<char>> = Vec::new();
                let mut i: usize = 0;
                while i < lanes.len()
                    invariant
                        i <= lanes.len(),
                        seqs(names@) == other_names(lanes@.take(i as int), *dominant),
                    decreases lanes.len() - i,
                {
                    proof {
                        assert(lanes@.take(i + 1).drop_last() =~= lanes@.take(i as int));
                    }
                    if lanes[i] != *dominant {
                        let nm = chars_of(lanes[i].as_str());
                        let ghost before = seqs(names@);
                        names.push(nm);
                        assert(seqs(names@) =~= before.push(nm@));
                    }
                    i = i + 1;
                }
                assert(lanes@.take(lanes.len() as int) =~= lanes@);
                let sep = chars_of(", ");
                let joined = join_chars(&names, &sep);
                let mut s = cat("mixed — dominant ", dominant.as_str());
                s.append(" (also: ");
                push_chars(&mut s, &joined);
                s.append(")");
                s
            },
            Verdict::Indeterminate => owned(
                "indeterminate — no prover-selection lines captured; rerun with RUST_LOG=debug",
            ),
        }
    }
}

/// The doctor's own CI exit-code scheme:
/// `0` ok/matched · `1` lane mismatch · `2` indeterminate · `3` env/usage error.
/// `2` is distinct from `1` so a CI gate can tell *wrong lane* from *couldn't
/// tell* — preserving "report, never assume".
pub const EXIT_OK: u8 = 0;

pub const EXIT_MISMATCH: u8 = 1;

pub const EXIT_INDETERMINATE: u8 = 2;

pub const EXIT_ERROR: u8 = 3;

/// The exit code for an observed lane (if any) and an expected lane (if any).
pub open spec fn spec_exit_code(observed: Option<Lane>, expected: Option<Lane>) -> u8 {
    match (observed, expected) {
        (None, _) => EXIT_INDETERMINATE,
        (Some(_), None) => EXIT_OK,
        (Some(o), Some(e)) => if o == e {
            EXIT_OK
        } else {
            EXIT_MISMATCH
        },
    }
}

/// Map an observed verdict (and an optional `--expect`ed lane) to a process
/// exit code. With no expectation, any observed lane is success and only
/// `Indeterminate` is non-zero.
pub fn exit_code(verdict: &Verdict, expected: Option<Lane>) -> (r: u8)
    ensures
        r == spec_exit_code(verdict.spec_effective_lane(), expected),
{
    match (verdict.effective_lane(), expected) {
        (None, _) => EXIT_INDETERMINATE,
        (Some(_), None) => EXIT_OK,
        (Some(observed), Some(exp)) => if observed == exp {
            EXIT_OK
        } else {
            EXIT_MISMATCH
        },
    }
}

/// The lane a lower-cased line names by its HAL marker, if any. A captured line
/// is attributed to a lane only if it carries one of the markers — risc0's HAL
/// module path (`…::hal::metal`) or an explicit lane-selection phrase. Metal
/// takes precedence, then CUDA, then CPU.
pub open spec fn marker_lane(lower: Seq<char>) -> Option<Lane> {
    if contains(lower, "hal::metal"@) || contains(lower, "metal hal"@) || contains(
        lower,
        "metal prover"@,
    ) {
        Some(Lane::Metal)
    } else if contains(lower, "hal::cuda"@) || contains(lower, "cuda hal"@) || contains(
        lower,
        "cuda prover"@,
    ) {
        Some(Lane::Cuda)
    } else if contains(lower, "hal::cpu"@) || contains(lower, "cpu hal"@) || contains(
        lower,
        "cpu prover"@,
    ) || contains(lower, "cpu fallback"@) {
        Some(Lane::Cpu)
    } else {
        None
    }
}

/// A cargo/rustc build line — a compiler diagnostic or status line.
pub open spec fn is_build_output(line: Seq<char>) -> bool {
    let t = trim_start(line);
    ||| starts_with(t, "-->"@)
    ||| starts_with(t, "error"@)
    ||| starts_with(t, "warning:"@)
    ||| starts_with(t, "note:"@)
    ||| starts_with(t, "Compiling"@)
    ||| starts_with(t, "Checking"@)
    ||| starts_with(t, "Building"@)
    ||| starts_with(t, "Finished"@)
    ||| starts_with(t, "Running"@)
}

/// The lane an ANSI-free captured line counts toward, if any.
pub open spec fn line_lane(clean: Seq<char>) -> Option<Lane> {
    if is_build_output(clean) {
        None
    } else {
        marker_lane(lower(clean))
    }
}

/// The (trimmed) lines of `ls` that count toward lane `l`, in order.
pub open spec fn lane_lines(ls: Seq<Seq<char>>, l: Lane) -> Seq<Seq<char>>
    decreases ls.len(),
{
    if ls.len() == 0 {
        seq![]
    } else {
        let prev = lane_lines(ls.drop_last(), l);
        if line_lane(ls.last()) == Some(l) {
            prev.push(trim(ls.last()))
        } else {
            prev
        }
    }
}

/// At most this many matched lines are kept in a report.
pub const MATCHED_LINES_CAP: usize = 60;

/// The matched lines kept in a report: metal, then cuda, then cpu lines,
/// capped at [`MATCHED_LINES_CAP`].
pub open spec fn kept_lines(ls: Seq<Seq<char>>) -> Seq<Seq<char>> {
    let all = lane_lines(ls, Lane::Metal) + lane_lines(ls, Lane::Cuda) + lane_lines(
        ls,
        Lane::Cpu,
    );
    if all.len() > MATCHED_LINES_CAP {
        all.take(MATCHED_LINES_CAP as int)
    } else {
        all
    }
}

/// The result of scanning the ANSI-free lines `ls`.
pub open spec fn scanned(ls: Seq<Seq<char>>, r: (LaneCounts, Vec<String>)) -> bool {
    &&& r.0.count(Lane::Metal) == lane_lines(ls, Lane::Metal).len()
    &&& r.0.count(Lane::Cuda) == lane_lines(ls, Lane::Cuda).len()
    &&& r.0.count(Lane::Cpu) == lane_lines(ls, Lane::Cpu).len()
    &&& strs(r.1@) == kept_lines(ls)
}

/// The captured lines of `output` with their ANSI escapes removed.
pub open spec fn clean_lines(output: Seq<char>) -> Seq<Seq<char>> {
    lines(output).map_values(|l: Seq<char>| spec_strip_ansi(l))
}

/// Classify one (already lowercased) line by its HAL marker, if any.
pub fn lane_of(lower: &Vec<char>) -> (r: Option<Lane>)
    ensures
        r == marker_lane(lower@),
{
    if contains_str(lower, "hal::metal") || contains_str(lower, "metal hal") || contains_str(
        lower,
        "metal prover",
    ) {
        Some(Lane::Metal)
    } else if contains_str(lower, "hal::cuda") || contains_str(lower, "cuda hal")
        || contains_str(lower, "cuda prover") {
        Some(Lane::Cuda)
    } else if contains_str(lower, "hal::cpu") || contains_str(lower, "cpu hal") || contains_str(
        lower,
        "cpu prover",
    ) || contains_str(lower, "cpu fallback") {
        Some(Lane::Cpu)
    } else {
        None
    }
}

/// True for a cargo/rustc build line — a compiler diagnostic or status line.
/// With marker-based attribution this drops an `error:`/`warning:` line that
/// happens to name a HAL path.
pub fn looks_like_build_output(line: &Vec<char>) -> (r: bool)
    ensures
        r == is_build_output(line@),
{
    let t = trim_start_chars(line);
    starts_with_str(&t, "-->") || starts_with_str(&t, "error") || starts_with_str(&t, "warning:")
        || starts_with_str(&t, "note:") || starts_with_str(&t, "Compiling") || starts_with_str(
        &t,
        "Checking",
    ) || starts_with_str(&t, "Building") || starts_with_str(&t, "Finished") || starts_with_str(
        &t,
        "Running",
    )
}

/// The lane an ANSI-free line counts toward, if any.
pub fn classify_line(clean: &Vec<char>) -> (r: Option<Lane>)
    ensures
        r == line_lane(clean@),
{
    if looks_like_build_output(clean) {
        None
    } else {
        let lw = lower_chars(clean);
        lane_of(&lw)
    }
}

proof fn lemma_lane_lines_step(ls: Seq<Seq<char>>, i: int, l: Lane)
    requires
        0 <= i < ls.len(),
    ensures
        lane_lines(ls.take(i + 1), l) == if line_lane(ls[i]) == Some(l) {
            lane_lines(ls.take(i), l).push(trim(ls[i]))
        } else {
            lane_lines(ls.take(i), l)
        },
{
    assert(ls.take(i + 1).drop_last() =~= ls.take(i));
}

/// A line counts toward at most one lane, so the counts sum to at most the
/// number of lines.
pub proof fn lemma_lane_lines_total(ls: Seq<Seq<char>>)
    ensures
        lane_lines(ls, Lane::Metal).len() + lane_lines(ls, Lane::Cuda).len() + lane_lines(
            ls,
            Lane::Cpu,
        ).len() <= ls.len(),
    decreases ls.len(),
{
    if ls.len() > 0 {
        lemma_lane_lines_total(ls.drop_last());
    }
}

/// Scan ANSI-free captured lines for prover-lane evidence: per-lane counts and
/// the matched lines, trimmed, ordered metal→cuda→cpu, capped.
pub fn scan_clean_lines(clean: &Vec<String>) -> (r: (LaneCounts, Vec<String>))
    ensures
        scanned(strs(clean@), r),
        r.0.metal + r.0.cuda + r.0.cpu <= clean@.len(),
{
    let ghost ls = strs(clean@);
    let mut metal: Vec<String> = Vec::new();
    let mut cuda: Vec<String> = Vec::new();
    let mut cpu: Vec<String> = Vec::new();
    let mut i: usize = 0;
    while i < clean.len()
        invariant
            i <= clean.len(),
            ls == strs(clean@),
            strs(metal@) == lane_lines(ls.take(i as int), Lane::Metal),
            strs(cuda@) == lane_lines(ls.take(i as int), Lane::Cuda),
            strs(cpu@) == lane_lines(ls.take(i as int), Lane::Cpu),
            metal.len() + cuda.len() + cpu.len() <= i,
        decreases clean.len() - i,
    {
        let cv = chars_of(clean[i].as_str());
        proof {
            lemma_lane_lines_step(ls, i as int, Lane::Metal);
            lemma_lane_lines_step(ls, i as int, Lane::Cuda);
            lemma_lane_lines_step(ls, i as int, Lane::Cpu);
            assert(cv@ == ls[i as int]);
        }
        match classify_line(&cv) {
            Some(Lane::Metal) => {
                let t = string_of(&trim_chars(&cv));
                let ghost before = strs(metal@);
                metal.push(t);
                assert(strs(metal@) =~= before.push(t@));
            },
            Some(Lane::Cuda) => {
                let t = string_of(&trim_chars(&cv));
                let ghost before = strs(cuda@);
                cuda.push(t);
                assert(strs(cuda@) =~= before.push(t@));
            },
            Some(Lane::Cpu) => {
                let t = string_of(&trim_chars(&cv));
                let ghost before = strs(cpu@);
                cpu.push(t);
                assert(strs(cpu@) =~= before.push(t@));
            },
            None => {},
        }
        i = i + 1;
    }
    assert(ls.take(clean.len() as int) =~= ls);
    assert(strs(metal@).len() == metal@.len());
    assert(strs(cuda@).len() == cuda@.len());
    assert(strs(cpu@).len() == cpu@.len());
    let counts = LaneCounts { metal: metal.len(), cuda: cuda.len(), cpu: cpu.len() };
    let mut matched: Vec<String> = Vec::new();
    matched.append(&mut metal);
    matched.append(&mut cuda);
    matched.append(&mut cpu);
    let ghost all = matched@;
    assert(strs(all) =~= lane_lines(ls, Lane::Metal) + lane_lines(ls, Lane::Cuda) + lane_lines(
        ls,
        Lane::Cpu,
    ));
    matched.truncate(MATCHED_LINES_CAP);
    proof {
        if all.len() > MATCHED_LINES_CAP {
            assert(strs(matched@) =~= strs(all).take(MATCHED_LINES_CAP as int));
        } else {
            assert(strs(matched@) =~= strs(all));
        }
        assert(strs(matched@) == kept_lines(ls));
    }
    (counts, matched)
}

/// Scan captured output for prover-lane evidence. Returns the per-lane counts
/// and the matched lines, ANSI-stripped and ordered metal→cuda→cpu, capped so a
/// giant log can't bloat the report.
pub fn scan(output: &str) -> (r: (LaneCounts, Vec<String>))
    ensures
        scanned(clean_lines(output@), r),
        r.0.metal + r.0.cuda + r.0.cpu <= usize::MAX,
{
    let chars = chars_of(output);
    let raw = lines_of(&chars);
    let mut clean: Vec<String> = Vec::new();
    let mut i: usize = 0;
    while i < raw.len()
        invariant
            i <= raw.len(),
            seqs(raw@) == lines(output@),
            strs(clean@) == clean_lines(output@).take(i as int),
        decreases raw.len() - i,
    {
        let line = string_of(&raw[i]);
        let c = strip_ansi(line.as_str());
        let ghost before = strs(clean@);
        clean.push(c);
        assert(strs(clean@) =~= before.push(c@));
        assert(clean_lines(output@).take(i + 1) =~= clean_lines(output@).take(i as int).push(
            spec_strip_ansi(raw@[i as int]@),
        ));
        i = i + 1;
    }
    assert(clean_lines(output@).take(raw.len() as int) =~= clean_lines(output@));
    scan_clean_lines(&clean)
}

// ---------------------------------------------------------------- laws

/// No lines, no claim: a verdict is `Indeterminate` exactly when no lane line
/// was counted, and `Observed` exactly when one lane was.
pub proof fn law_indeterminate_iff_no_lines(c: LaneCounts, v: Verdict)
    requires
        v.derived_from(c),
    ensures
        (v is Indeterminate) <==> c.spec_total() == 0,
        (v is Observed) <==> (ranked_lanes(c).len() == 1),
{
    law_head_is_dominant(c);
}

/// The dominant lane is never buried: the lane a verdict names (for `--expect`)
/// ran at least as many lines as any other lane, and at least one.
pub proof fn law_effective_lane_is_dominant(c: LaneCounts, v: Verdict, l: Lane)
    requires
        v.derived_from(c),
        v.spec_effective_lane() == Some(l),
    ensures
        c.count(l) > 0,
        forall|m: Lane| c.count(m) <= c.count(l),
        forall|m: Lane| c.count(m) == c.count(l) && m != l ==> l.rank() < m.rank(),
{
    law_head_is_dominant(c);
}

/// Exit code 2 means exactly "could not tell", whatever was expected; with no
/// expectation any observed lane is success.
pub proof fn law_exit_code_scheme(v: Verdict, expected: Option<Lane>)
    ensures
        (spec_exit_code(v.spec_effective_lane(), expected) == EXIT_INDETERMINATE) <==> (v is Indeterminate),
        expected is None && !(v is Indeterminate) ==> spec_exit_code(
            v.spec_effective_lane(),
            expected,
        ) == EXIT_OK,
        spec_exit_code(v.spec_effective_lane(), expected) != EXIT_ERROR,
{
}

/// The counts from a scan never exceed the number of captured lines, so their
/// total is always representable.
pub proof fn law_scan_counts_bounded(output: Seq<char>, r: (LaneCounts, Vec<String>))
    requires
        scanned(clean_lines(output), r),
    ensures
        r.0.spec_total() <= lines(output).len(),
{
    lemma_lane_lines_total(clean_lines(output));
}

/// A line that carries no lane marker (a build line, a crate name, a
/// `hal/metal.rs` path, the CPU executor) cannot move the counts: adding it to
/// a log leaves every lane's matched lines unchanged.
pub proof fn law_unmarked_line_moves_nothing(ls: Seq<Seq<char>>, extra: Seq<char>, l: Lane)
    requires
        line_lane(extra) is None,
    ensures
        lane_lines(ls.push(extra), l) == lane_lines(ls, l),
{
    assert(ls.push(extra).drop_last() =~= ls);
}

/// Build output never counts toward a lane, whatever HAL path it names.
pub proof fn law_build_output_never_counts(line: Seq<char>)
    requires
        is_build_output(line),
    ensures
        line_lane(line) is None,
{
}

/// The verdict can be checked against the report: when a run has no more lane
/// lines than the cap, the matched lines are exactly its lane lines, Metal,
/// then CUDA, then CPU — so each count is the size of its lane's block.
pub proof fn law_matched_lines_show_every_count(ls: Seq<Seq<char>>, r: (LaneCounts, Vec<String>))
    requires
        scanned(ls, r),
        r.0.spec_total() <= MATCHED_LINES_CAP,
    ensures
        strs(r.1@) == lane_lines(ls, Lane::Metal) + lane_lines(ls, Lane::Cuda) + lane_lines(
            ls,
            Lane::Cpu,
        ),
        r.1@.len() == r.0.spec_total(),
{
}

/// Lane attribution by marker phrase. A line that is not build output (after
/// leading whitespace it does not begin with `-->`, `error`, `warning:`,
/// `note:`, `Compiling`, `Checking`, `Building`, `Finished` or `Running`) counts
/// toward Metal when its lower-cased text holds `hal::metal`, `metal hal` or
/// `metal prover`; otherwise toward CUDA when it holds `hal::cuda`, `cuda hal`
/// or `cuda prover`; otherwise toward the CPU when it holds `hal::cpu`,
/// `cpu hal`, `cpu prover` or `cpu fallback`; and toward no lane when it holds
/// none of these phrases or is build output.
pub proof fn law_lane_markers(line: Seq<char>)
    ensures
        ({
            let l = lower(line);
            let metal = contains(l, "hal::metal"@) || contains(l, "metal hal"@) || contains(
                l,
                "metal prover"@,
            );
            let cuda = contains(l, "hal::cuda"@) || contains(l, "cuda hal"@) || contains(
                l,
                "cuda prover"@,
            );
            let cpu = contains(l, "hal::cpu"@) || contains(l, "cpu hal"@) || contains(
                l,
                "cpu prover"@,
            ) || contains(l, "cpu fallback"@);
            let t = trim_start(line);
            let build = starts_with(t, "-->"@) || starts_with(t, "error"@) || starts_with(
                t,
                "warning:"@,
            ) || starts_with(t, "note:"@) || starts_with(t, "Compiling"@) || starts_with(
                t,
                "Checking"@,
            ) || starts_with(t, "Building"@) || starts_with(t, "Finished"@) || starts_with(
                t,
                "Running"@,
            );
            &&& build ==> line_lane(line) is None
            &&& (!build && metal) ==> line_lane(line) == Some(Lane::Metal)
            &&& (!build && !metal && cuda) ==> line_lane(line) == Some(Lane::Cuda)
            &&& (!build && !metal && !cuda && cpu) ==> line_lane(line) == Some(Lane::Cpu)
            &&& (!metal && !cuda && !cpu) ==> line_lane(line) is None
        }),
{
}

/// A one-line log counts that line once, toward its lane, and toward no
/// other lane.
pub proof fn law_one_line_log(line: Seq<char>, l: Lane)
    ensures
        lane_lines(seq![line], l).len() == if line_lane(line) == Some(l) {
            1int
        } else {
            0int
        },
{
    let ls = seq![line];
    assert(ls.drop_last() =~= Seq::<Seq<char>>::empty());
    assert(ls.last() == line);
    assert(lane_lines(ls.drop_last(), l) =~= Seq::<Seq<char>>::empty());
}

} // verus!
