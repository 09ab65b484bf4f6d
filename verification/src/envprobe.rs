//! Host toolchain and environment facts that steer risc0 prover selection.
//!
//! Facts only — the observations and checks name what was found, not what the
//! docs promise. Reading the environment and running `--version` probes is the
//! caller's part; this module decides what those facts mean.
use crate::sanitize::{law_redact_removes_home, redact, redacted, HostIdentity};
use crate::text::{
    cat, chars_of, chars_eq, contains, lines, lines_of, lower, lower_chars, opt_view, or_text, owned,
    pad_right, pad_right_chars, push_chars, push_or, string_of, strs, trim, trim_chars,
};
use vstd::prelude::*;

verus! {

broadcast use vstd::string::group_string_axioms;

/// A single environment check: a severity, what was found, and how to fix it.
#[derive(Debug)]
pub struct EnvCheck {
    /// `ok` · `info` · `warn`
    pub level: &'static str,
    pub message: String,
    pub remediation: Option<String>,
}

/// What a check says: its level, message and remediation.
pub type CheckView = (Seq<char>, Seq<char>, Option<Seq<char>>);

pub open spec fn check_view(c: EnvCheck) -> CheckView {
    (c.level@, c.message@, opt_view(c.remediation))
}

pub open spec fn check_views(cs: Seq<EnvCheck>) -> Seq<CheckView> {
    cs.map_values(|c: EnvCheck| check_view(c))
}

impl EnvCheck {
    pub fn warn(message: String, remediation: String) -> (r: EnvCheck)
        ensures
            check_view(r) == ("warn"@, message@, Some(remediation@)),
    {
        EnvCheck { level: "warn", message, remediation: Some(remediation) }
    }

    pub fn info(message: String, remediation: String) -> (r: EnvCheck)
        ensures
            check_view(r) == ("info"@, message@, Some(remediation@)),
    {
        EnvCheck { level: "info", message, remediation: Some(remediation) }
    }

    pub fn ok(message: String) -> (r: EnvCheck)
        ensures
            check_view(r) == ("ok"@, message@, None::<Seq<char>>),
    {
        EnvCheck { level: "ok", message, remediation: None }
    }
}

/// `RISC0_DEV_MODE`-style truthiness: `1`, `true`, `yes` or `on`, in any ASCII
/// case.
pub open spec fn is_truthy(v: Seq<char>) -> bool {
    let l = lower(v);
    l == "1"@ || l == "true"@ || l == "yes"@ || l == "on"@
}

pub fn truthy(v: &str) -> (r: bool)
    ensures
        r == is_truthy(v@),
{
    let l = lower_chars(&chars_of(v));
    chars_eq(&l, &chars_of("1")) || chars_eq(&l, &chars_of("true")) || chars_eq(
        &l,
        &chars_of("yes"),
    ) || chars_eq(&l, &chars_of("on"))
}

pub open spec fn dev_mode_on(dev_mode: Option<Seq<char>>) -> bool {
    dev_mode matches Some(v) && is_truthy(v)
}

/// The checks that warn: dev mode on, or the risc0 toolchain missing or skewed.
pub open spec fn has_warning(
    rzup: Option<Seq<char>>,
    cargo_risczero: Option<Seq<char>>,
    r0vm: Option<Seq<char>>,
    dev_mode: Option<Seq<char>>,
) -> bool {
    ||| dev_mode_on(dev_mode)
    ||| (cargo_risczero is None && r0vm is None)
    ||| (rzup is Some && r0vm is None)
}

/// The environment checks, in order: dev mode, prover override, toolchain —
/// preceded by an `ok` check when none of them warns.
pub open spec fn expected_checks(
    rzup: Option<Seq<char>>,
    cargo_risczero: Option<Seq<char>>,
    r0vm: Option<Seq<char>>,
    dev_mode: Option<Seq<char>>,
    prover: Option<Seq<char>>,
) -> Seq<CheckView> {
    let c1: Seq<CheckView> = if dev_mode_on(dev_mode) {
        seq![
            (
                "warn"@,
                "RISC0_DEV_MODE is enabled — receipts are FAKE and no real proving runs"@,
                Some("unset RISC0_DEV_MODE before any lane question is meaningful"@),
            ),
        ]
    } else {
        seq![]
    };
    let c2: Seq<CheckView> = match prover {
        Some(p) => c1.push(
            (
                "info"@,
                "RISC0_PROVER is set ("@ + p + ") — it overrides default prover selection"@,
                Some("unset RISC0_PROVER to observe the default selection path"@),
            ),
        ),
        None => c1,
    };
    let c3: Seq<CheckView> = if cargo_risczero is None && r0vm is None {
        c2.push(
            (
                "warn"@,
                "risc0 toolchain not found (no cargo-risczero or r0vm on PATH)"@,
                Some("install via rzup: https://dev.risczero.com/api/zkvm/install"@),
            ),
        )
    } else if rzup is Some && r0vm is None {
        c2.push(
            (
                "warn"@,
                "rzup is installed but r0vm is not on PATH — possible toolchain skew"@,
                Some("run `rzup install` and ensure ~/.risc0/bin is on PATH"@),
            ),
        )
    } else {
        c2
    };
    if has_warning(rzup, cargo_risczero, r0vm, dev_mode) {
        c3
    } else {
        seq![("ok"@, "no blocking misconfiguration detected"@, None::<Seq<char>>)] + c3
    }
}

pub fn build_checks(
    rzup: &Option<String>,
    cargo_risczero: &Option<String>,
    r0vm: &Option<String>,
    dev_mode: &Option<String>,
    prover: &Option<String>,
) -> (r: Vec<EnvCheck>)
    ensures
        check_views(r@) == expected_checks(
            opt_view(*rzup),
            opt_view(*cargo_risczero),
            opt_view(*r0vm),
            opt_view(*dev_mode),
            opt_view(*prover),
        ),
{
    let mut checks: Vec<EnvCheck> = Vec::new();
    let mut warned = false;
    let dev_on = match dev_mode {
        Some(v) => truthy(v.as_str()),
        None => false,
    };
    if dev_on {
        checks.push(
            EnvCheck::warn(
                owned("RISC0_DEV_MODE is enabled — receipts are FAKE and no real proving runs"),
                owned("unset RISC0_DEV_MODE before any lane question is meaningful"),
            ),
        );
        warned = true;
    }
    let ghost c1 = check_views(checks@);
    match prover {
        Some(p) => {
            let mut m = cat("RISC0_PROVER is set (", p.as_str());
            m.append(") — it overrides default prover selection");
            let ck = EnvCheck::info(m, owned("unset RISC0_PROVER to observe the default selection path"));
            checks.push(ck);
            assert(check_views(checks@) =~= c1.push(check_view(ck)));
        },
        None => {},
    }
    let ghost c2 = check_views(checks@);
    let toolchain_present = cargo_risczero.is_some() || r0vm.is_some();
    if !toolchain_present {
        let ck = EnvCheck::warn(
            owned("risc0 toolchain not found (no cargo-risczero or r0vm on PATH)"),
            owned("install via rzup: https://dev.risczero.com/api/zkvm/install"),
        );
        checks.push(ck);
        assert(check_views(checks@) =~= c2.push(check_view(ck)));
        warned = true;
    } else if rzup.is_some() && r0vm.is_none() {
        let ck = EnvCheck::warn(
            owned("rzup is installed but r0vm is not on PATH — possible toolchain skew"),
            owned("run `rzup install` and ensure ~/.risc0/bin is on PATH"),
        );
        checks.push(ck);
        assert(check_views(checks@) =~= c2.push(check_view(ck)));
        warned = true;
    }
    let ghost c3 = check_views(checks@);
    if !warned {
        let ck = EnvCheck::ok(owned("no blocking misconfiguration detected"));
        checks.insert(0, ck);
        assert(check_views(checks@) =~= seq![check_view(ck)] + c3);
    }
    checks
}

/// The free-form observations about the environment, in order.
pub open spec fn expected_observations(
    rzup: Option<Seq<char>>,
    cargo_risczero: Option<Seq<char>>,
    r0vm: Option<Seq<char>>,
    dev_mode: Option<Seq<char>>,
    prover: Option<Seq<char>>,
    apple_silicon: bool,
) -> Seq<Seq<char>> {
    let a: Seq<Seq<char>> = if cargo_risczero is None && r0vm is None && rzup is None {
        seq![
            "risc0 toolchain not found (no rzup, cargo-risczero, or r0vm on PATH) — install via rzup before the `prove` probe can observe anything"@,
        ]
    } else {
        seq![]
    };
    let b = if dev_mode_on(dev_mode) {
        a.push(
            "RISC0_DEV_MODE is enabled: receipts are fake and NO real proving runs — any Metal-vs-CPU question is moot until this is unset"@,
        )
    } else {
        a
    };
    let c = match prover {
        Some(p) => b.push(
            "RISC0_PROVER="@ + p
                + " explicitly overrides prover selection — the observed lane will reflect this, not the default path"@,
        ),
        None => b,
    };
    if apple_silicon {
        c.push(
            "host is Apple Silicon macOS — CUDA is unavailable here by construction; the only GPU lane risc0 could use is Metal"@,
        )
    } else {
        c
    }
}

pub fn build_observations(
    rzup: &Option<String>,
    cargo_risczero: &Option<String>,
    r0vm: &Option<String>,
    dev_mode: &Option<String>,
    prover: &Option<String>,
    apple_silicon: bool,
) -> (r: Vec<String>)
    ensures
        strs(r@) == expected_observations(
            opt_view(*rzup),
            opt_view(*cargo_risczero),
            opt_view(*r0vm),
            opt_view(*dev_mode),
            opt_view(*prover),
            apple_silicon,
        ),
{
    let mut obs: Vec<String> = Vec::new();
    if cargo_risczero.is_none() && r0vm.is_none() && rzup.is_none() {
        obs.push(
            owned(
                "risc0 toolchain not found (no rzup, cargo-risczero, or r0vm on PATH) — install via rzup before the `prove` probe can observe anything",
            ),
        );
    }
    let ghost a = strs(obs@);
    let dev_on = match dev_mode {
        Some(v) => truthy(v.as_str()),
        None => false,
    };
    if dev_on {
        let t = owned(
            "RISC0_DEV_MODE is enabled: receipts are fake and NO real proving runs — any Metal-vs-CPU question is moot until this is unset",
        );
        obs.push(t);
        assert(strs(obs@) =~= a.push(t@));
    }
    let ghost b = strs(obs@);
    match prover {
        Some(p) => {
            let mut t = cat("RISC0_PROVER=", p.as_str());
            t.append(
                " explicitly overrides prover selection — the observed lane will reflect this, not the default path",
            );
            let ghost tv = t@;
            obs.push(t);
            assert(strs(obs@) =~= b.push(tv));
        },
        None => {},
    }
    let ghost c = strs(obs@);
    if apple_silicon {
        let t = owned(
            "host is Apple Silicon macOS — CUDA is unavailable here by construction; the only GPU lane risc0 could use is Metal",
        );
        obs.push(t);
        assert(strs(obs@) =~= c.push(t@));
    }
    obs
}

/// The version a `--version` run printed: its first line, trimmed, unless that
/// is empty (or there is no line).
pub open spec fn version_line_of(stdout: Seq<char>) -> Option<Seq<char>> {
    let ls = lines(stdout);
    if ls.len() == 0 || trim(ls[0]).len() == 0 {
        None
    } else {
        Some(trim(ls[0]))
    }
}

/// The version line of a successful `--version` run's standard output.
pub fn version_line(stdout: &str) -> (r: Option<String>)
    ensures
        opt_view(r) == version_line_of(stdout@),
{
    let ls = lines_of(&chars_of(stdout));
    if ls.len() == 0 {
        return None;
    }
    let t = trim_chars(&ls[0]);
    if t.len() == 0 {
        None
    } else {
        Some(string_of(&t))
    }
}

/// Host toolchain and environment facts that steer risc0 prover selection.
#[derive(Debug)]
pub struct EnvReport {
    pub os: String,
    pub arch: String,
    pub rustc: Option<String>,
    pub cargo: Option<String>,
    pub rzup: Option<String>,
    pub cargo_risczero: Option<String>,
    pub r0vm: Option<String>,
    /// RISC0_DEV_MODE: when truthy, risc0 produces fake receipts and no real
    /// proving (CPU or GPU) happens at all.
    pub risc0_dev_mode: Option<String>,
    /// RISC0_PROVER: explicit prover override (e.g. "local", "ipc", "bonsai").
    pub risc0_prover: Option<String>,
    pub rust_log: Option<String>,
    pub observations: Vec<String>,
    /// Typed misconfiguration checks with remediation advice.
    pub checks: Vec<EnvCheck>,
}

pub open spec fn redact_opt(o: Option<String>, host: HostIdentity) -> Option<Seq<char>> {
    match o {
        Some(s) => Some(redacted(s@, host)),
        None => None,
    }
}

/// `r` is `e` with the free-form value fields redacted for `host`: the tool
/// versions, the steering variables, the observations and each check's
/// message and remediation. The platform names and check levels are kept.
pub open spec fn is_redaction_of(r: EnvReport, e: EnvReport, host: HostIdentity) -> bool {
    &&& r.os@ == e.os@ && r.arch@ == e.arch@
    &&& opt_view(r.rustc) == redact_opt(e.rustc, host)
    &&& opt_view(r.cargo) == redact_opt(e.cargo, host)
    &&& opt_view(r.rzup) == redact_opt(e.rzup, host)
    &&& opt_view(r.cargo_risczero) == redact_opt(e.cargo_risczero, host)
    &&& opt_view(r.r0vm) == redact_opt(e.r0vm, host)
    &&& opt_view(r.risc0_dev_mode) == redact_opt(e.risc0_dev_mode, host)
    &&& opt_view(r.risc0_prover) == redact_opt(e.risc0_prover, host)
    &&& opt_view(r.rust_log) == redact_opt(e.rust_log, host)
    &&& r.observations@.len() == e.observations@.len()
    &&& forall|i: int|
        0 <= i < r.observations@.len() ==> (#[trigger] r.observations@[i])@ == redacted(
            e.observations@[i]@,
            host,
        )
    &&& r.checks@.len() == e.checks@.len()
    &&& forall|i: int|
        0 <= i < r.checks@.len() ==> {
            &&& (#[trigger] r.checks@[i]).level == e.checks@[i].level
            &&& r.checks@[i].message@ == redacted(e.checks@[i].message@, host)
            &&& opt_view(r.checks@[i].remediation) == redact_opt(e.checks@[i].remediation, host)
        }
}

fn redact_opt_exec(o: &Option<String>, host: &HostIdentity) -> (r: Option<String>)
    ensures
        opt_view(r) == redact_opt(*o, *host),
{
    match o {
        Some(s) => Some(redact(s.as_str(), host)),
        None => None,
    }
}

/// `r` is the report of these facts: each fact in its field, and the
/// observations and checks that the facts call for.
pub open spec fn is_report_from_facts(
    r: EnvReport,
    os: String,
    arch: String,
    rustc: Option<String>,
    cargo: Option<String>,
    rzup: Option<String>,
    cargo_risczero: Option<String>,
    r0vm: Option<String>,
    risc0_dev_mode: Option<String>,
    risc0_prover: Option<String>,
    rust_log: Option<String>,
    apple_silicon: bool,
) -> bool {
    &&& r.os == os && r.arch == arch && r.rustc == rustc && r.cargo == cargo
    &&& r.rzup == rzup && r.cargo_risczero == cargo_risczero && r.r0vm == r0vm
    &&& r.risc0_dev_mode == risc0_dev_mode && r.risc0_prover == risc0_prover
    &&& r.rust_log == rust_log
    &&& strs(r.observations@) == expected_observations(
        opt_view(rzup),
        opt_view(cargo_risczero),
        opt_view(r0vm),
        opt_view(risc0_dev_mode),
        opt_view(risc0_prover),
        apple_silicon,
    )
    &&& check_views(r.checks@) == expected_checks(
        opt_view(rzup),
        opt_view(cargo_risczero),
        opt_view(r0vm),
        opt_view(risc0_dev_mode),
        opt_view(risc0_prover),
    )
}

/// A report keeps the platform and the steering variables it was given, and
/// its checks are exactly the ones its own toolchain and variable fields call
/// for — the checks can be recomputed from the report.
pub proof fn law_report_checks_follow_its_fields(
    r: EnvReport,
    os: String,
    arch: String,
    rustc: Option<String>,
    cargo: Option<String>,
    rzup: Option<String>,
    cargo_risczero: Option<String>,
    r0vm: Option<String>,
    risc0_dev_mode: Option<String>,
    risc0_prover: Option<String>,
    rust_log: Option<String>,
    apple_silicon: bool,
)
    requires
        is_report_from_facts(
            r,
            os,
            arch,
            rustc,
            cargo,
            rzup,
            cargo_risczero,
            r0vm,
            risc0_dev_mode,
            risc0_prover,
            rust_log,
            apple_silicon,
        ),
    ensures
        r.os == os && r.arch == arch,
        r.risc0_dev_mode == risc0_dev_mode && r.risc0_prover == risc0_prover && r.rust_log
            == rust_log,
        check_views(r.checks@) == expected_checks(
            opt_view(r.rzup),
            opt_view(r.cargo_risczero),
            opt_view(r.r0vm),
            opt_view(r.risc0_dev_mode),
            opt_view(r.risc0_prover),
        ),
{
}

impl EnvReport {
    /// Build the report from the facts the probes read: the platform, the
    /// version line of each tool (absent when it did not run), the three
    /// steering variables, and whether the host is Apple Silicon macOS.
    pub fn from_facts(
        os: String,
        arch: String,
        rustc: Option<String>,
        cargo: Option<String>,
        rzup: Option<String>,
        cargo_risczero: Option<String>,
        r0vm: Option<String>,
        risc0_dev_mode: Option<String>,
        risc0_prover: Option<String>,
        rust_log: Option<String>,
        apple_silicon: bool,
    ) -> (r: EnvReport)
        ensures
            is_report_from_facts(
                r,
                os,
                arch,
                rustc,
                cargo,
                rzup,
                cargo_risczero,
                r0vm,
                risc0_dev_mode,
                risc0_prover,
                rust_log,
                apple_silicon,
            ),
    {
        let observations = build_observations(
            &rzup,
            &cargo_risczero,
            &r0vm,
            &risc0_dev_mode,
            &risc0_prover,
            apple_silicon,
        );
        let checks = build_checks(&rzup, &cargo_risczero, &r0vm, &risc0_dev_mode, &risc0_prover);
        EnvReport {
            os,
            arch,
            rustc,
            cargo,
            rzup,
            cargo_risczero,
            r0vm,
            risc0_dev_mode,
            risc0_prover,
            rust_log,
            observations,
            checks,
        }
    }

    /// A copy with host-identifying details redacted from the free-form value
    /// fields (versions, the steering variables, observations and checks), for
    /// shareable artifacts. The platform names are kept.
    pub fn redacted(&self, host: &HostIdentity) -> (r: EnvReport)
        ensures
            is_redaction_of(r, *self, *host),
    {
        let mut observations: Vec<String> = Vec::new();
        let mut i: usize = 0;
        while i < self.observations.len()
            invariant
                i <= self.observations.len(),
                observations@.len() == i,
                forall|k: int|
                    0 <= k < i ==> (#[trigger] observations@[k])@ == redacted(
                        self.observations@[k]@,
                        *host,
                    ),
            decreases self.observations.len() - i,
        {
            observations.push(redact(self.observations[i].as_str(), host));
            i = i + 1;
        }
        let mut checks: Vec<EnvCheck> = Vec::new();
        let mut j: usize = 0;
        while j < self.checks.len()
            invariant
                j <= self.checks.len(),
                checks@.len() == j,
                forall|k: int|
                    0 <= k < j ==> {
                        &&& (#[trigger] checks@[k]).level == self.checks@[k].level
                        &&& checks@[k].message@ == redacted(self.checks@[k].message@, *host)
                        &&& opt_view(checks@[k].remediation) == redact_opt(
                            self.checks@[k].remediation,
                            *host,
                        )
                    },
            decreases self.checks.len() - j,
        {
            let c = &self.checks[j];
            checks.push(
                EnvCheck {
                    level: c.level,
                    message: redact(c.message.as_str(), host),
                    remediation: redact_opt_exec(&c.remediation, host),
                },
            );
            j = j + 1;
        }
        EnvReport {
            os: string_of(&chars_of(self.os.as_str())),
            arch: string_of(&chars_of(self.arch.as_str())),
            rustc: redact_opt_exec(&self.rustc, host),
            cargo: redact_opt_exec(&self.cargo, host),
            rzup: redact_opt_exec(&self.rzup, host),
            cargo_risczero: redact_opt_exec(&self.cargo_risczero, host),
            r0vm: redact_opt_exec(&self.r0vm, host),
            risc0_dev_mode: redact_opt_exec(&self.risc0_dev_mode, host),
            risc0_prover: redact_opt_exec(&self.risc0_prover, host),
            rust_log: redact_opt_exec(&self.rust_log, host),
            observations,
            checks,
        }
    }
}

/// One labelled value row of the environment listing.
pub open spec fn value_row(label: Seq<char>, v: Option<String>, dflt: Seq<char>) -> Seq<char> {
    "  "@ + pad_right(label, 18) + or_text(v, dflt) + "\n"@
}

/// One check of the listing, with its remediation on a line of its own.
pub open spec fn check_row(c: EnvCheck) -> Seq<char> {
    "  ["@ + c.level@ + "] "@ + c.message@ + "\n"@ + match c.remediation {
        Some(rem) => "        → "@ + rem@ + "\n"@,
        None => seq![],
    }
}

pub open spec fn check_rows(cs: Seq<EnvCheck>) -> Seq<char>
    decreases cs.len(),
{
    if cs.len() == 0 {
        seq![]
    } else {
        check_rows(cs.drop_last()) + check_row(cs.last())
    }
}

/// The human-readable environment listing: platform, tool versions (or `not
/// found`), steering variables (or `unset`), then the checks if there are any.
pub open spec fn env_text(e: EnvReport) -> Seq<char> {
    "host environment ("@ + e.os@ + " / "@ + e.arch@ + ")\n"@
        + value_row("rustc"@, e.rustc, "not found"@)
        + value_row("cargo"@, e.cargo, "not found"@)
        + value_row("rzup"@, e.rzup, "not found"@)
        + value_row("cargo-risczero"@, e.cargo_risczero, "not found"@)
        + value_row("r0vm"@, e.r0vm, "not found"@)
        + value_row("RISC0_DEV_MODE"@, e.risc0_dev_mode, "unset"@)
        + value_row("RISC0_PROVER"@, e.risc0_prover, "unset"@)
        + value_row("RUST_LOG"@, e.rust_log, "unset"@)
        + if e.checks@.len() == 0 {
        seq![]
    } else {
        "\nchecks\n"@ + check_rows(e.checks@)
    }
}

fn push_value_row(s: &mut String, label: &str, v: &Option<String>, dflt: &str)
    ensures
        final(s)@ == old(s)@ + value_row(label@, *v, dflt@),
{
    s.append("  ");
    push_chars(s, &pad_right_chars(&chars_of(label), 18));
    push_or(s, v, dflt);
    s.append("\n");
}

fn push_check_rows(s: &mut String, cs: &Vec<EnvCheck>)
    ensures
        final(s)@ == old(s)@ + check_rows(cs@),
{
    let ghost head = s@;
    let mut j: usize = 0;
    assert(check_rows(cs@.take(0)) =~= Seq::<char>::empty());
    assert(s@ =~= head + check_rows(cs@.take(0)));
    while j < cs.len()
        invariant
            j <= cs.len(),
            s@ == head + check_rows(cs@.take(j as int)),
        decreases cs.len() - j,
    {
        proof {
            assert(cs@.take(j + 1).drop_last() =~= cs@.take(j as int));
        }
        let c = &cs[j];
        let ghost before = s@;
        s.append("  [");
        s.append(c.level);
        s.append("] ");
        s.append(c.message.as_str());
        s.append("\n");
        match &c.remediation {
            Some(rem) => {
                s.append("        → ");
                s.append(rem.as_str());
                s.append("\n");
            },
            None => {},
        }
        assert(s@ =~= before + check_row(*c));
        assert(s@ =~= head + check_rows(cs@.take(j + 1)));
        j = j + 1;
    }
    assert(cs@.take(j as int) =~= cs@);
}

impl EnvReport {
    /// Render the report for a terminal.
    pub fn render_human(&self) -> (r: String)
        ensures
            r@ == env_text(*self),
    {
        let mut s = cat("host environment (", self.os.as_str());
        s.append(" / ");
        s.append(self.arch.as_str());
        s.append(")\n");
        push_value_row(&mut s, "rustc", &self.rustc, "not found");
        push_value_row(&mut s, "cargo", &self.cargo, "not found");
        push_value_row(&mut s, "rzup", &self.rzup, "not found");
        push_value_row(&mut s, "cargo-risczero", &self.cargo_risczero, "not found");
        push_value_row(&mut s, "r0vm", &self.r0vm, "not found");
        push_value_row(&mut s, "RISC0_DEV_MODE", &self.risc0_dev_mode, "unset");
        push_value_row(&mut s, "RISC0_PROVER", &self.risc0_prover, "unset");
        push_value_row(&mut s, "RUST_LOG", &self.rust_log, "unset");
        if self.checks.len() > 0 {
            s.append("\nchecks\n");
            push_check_rows(&mut s, &self.checks);
        }
        s
    }
}

/// `o` is absent or does not contain `h`.
pub open spec fn shows_no(o: Option<String>, h: Seq<char>) -> bool {
    match o {
        Some(s) => !contains(s@, h),
        None => true,
    }
}

/// A redacted optional value does not contain the home path.
proof fn lemma_redacted_value_hides_home(o: Option<String>, host: HostIdentity)
    requires
        host.home is Some,
        host.home.unwrap()@.len() > 4,
        forall|i: int|
            0 <= i < host.home.unwrap()@.len() ==> {
                let c = #[trigger] host.home.unwrap()@[i];
                c != '~' && c != '<' && c != '>'
            },
    ensures
        match redact_opt(o, host) {
            Some(t) => !contains(t, host.home.unwrap()@),
            None => true,
        },
{
    if let Some(x) = o {
        law_redact_removes_home(x@, host);
    }
}

/// A redacted report shows the home path nowhere. With a home path longer than
/// four characters that holds no `~`, `<` or `>`, no field of the redacted
/// copy contains it — provided the fields kept as they are (the platform
/// names and the check levels) did not.
pub proof fn law_redacted_report_hides_home(r: EnvReport, e: EnvReport, host: HostIdentity)
    requires
        is_redaction_of(r, e, host),
        host.home is Some,
        host.home.unwrap()@.len() > 4,
        forall|i: int|
            0 <= i < host.home.unwrap()@.len() ==> {
                let c = #[trigger] host.home.unwrap()@[i];
                c != '~' && c != '<' && c != '>'
            },
        !contains(e.os@, host.home.unwrap()@),
        !contains(e.arch@, host.home.unwrap()@),
        forall|i: int|
            0 <= i < e.checks@.len() ==> !contains(
                (#[trigger] e.checks@[i]).level@,
                host.home.unwrap()@,
            ),
    ensures
        ({
            let h = host.home.unwrap()@;
            &&& !contains(r.os@, h) && !contains(r.arch@, h)
            &&& shows_no(r.rustc, h) && shows_no(r.cargo, h) && shows_no(r.rzup, h)
            &&& shows_no(r.cargo_risczero, h) && shows_no(r.r0vm, h)
            &&& shows_no(r.risc0_dev_mode, h) && shows_no(r.risc0_prover, h)
            &&& shows_no(r.rust_log, h)
            &&& forall|i: int|
                0 <= i < r.observations@.len() ==> !contains(
                    (#[trigger] r.observations@[i])@,
                    h,
                )
            &&& forall|i: int|
                0 <= i < r.checks@.len() ==> {
                    &&& !contains((#[trigger] r.checks@[i]).level@, h)
                    &&& !contains(r.checks@[i].message@, h)
                    &&& shows_no(r.checks@[i].remediation, h)
                }
        }),
{
    let h = host.home.unwrap()@;
    lemma_redacted_value_hides_home(e.rustc, host);
    lemma_redacted_value_hides_home(e.cargo, host);
    lemma_redacted_value_hides_home(e.rzup, host);
    lemma_redacted_value_hides_home(e.cargo_risczero, host);
    lemma_redacted_value_hides_home(e.r0vm, host);
    lemma_redacted_value_hides_home(e.risc0_dev_mode, host);
    lemma_redacted_value_hides_home(e.risc0_prover, host);
    lemma_redacted_value_hides_home(e.rust_log, host);
    assert forall|i: int| 0 <= i < r.observations@.len() implies !contains(
        (#[trigger] r.observations@[i])@,
        h,
    ) by {
        law_redact_removes_home(e.observations@[i]@, host);
    }
    assert forall|i: int| 0 <= i < r.checks@.len() implies {
        &&& !contains((#[trigger] r.checks@[i]).level@, h)
        &&& !contains(r.checks@[i].message@, h)
        &&& shows_no(r.checks@[i].remediation, h)
    } by {
        law_redact_removes_home(e.checks@[i].message@, host);
        lemma_redacted_value_hides_home(e.checks@[i].remediation, host);
    }
}

/// A check list opens with `ok` exactly when no check warns, and the `ok`
/// check is the only one that can open it without a remediation.
pub proof fn law_ok_first_iff_no_warning(
    rzup: Option<Seq<char>>,
    cargo_risczero: Option<Seq<char>>,
    r0vm: Option<Seq<char>>,
    dev_mode: Option<Seq<char>>,
    prover: Option<Seq<char>>,
)
    ensures
        ({
            let cs = expected_checks(rzup, cargo_risczero, r0vm, dev_mode, prover);
            &&& cs.len() > 0
            &&& (cs[0].0 == "ok"@) <==> !has_warning(rzup, cargo_risczero, r0vm, dev_mode)
            &&& (exists|i: int| 0 <= i < cs.len() && cs[i].0 == "warn"@) <==> has_warning(
                rzup,
                cargo_risczero,
                r0vm,
                dev_mode,
            )
        }),
{
    reveal_strlit("ok");
    reveal_strlit("warn");
    reveal_strlit("info");
    let cs = expected_checks(rzup, cargo_risczero, r0vm, dev_mode, prover);
    assert("ok"@ != "warn"@) by {
        assert("ok"@.len() != "warn"@.len());
    }
    assert("info"@ != "warn"@) by {
        assert("info"@[0] != "warn"@[0]);
    }
    assert("info"@ != "ok"@) by {
        assert("info"@.len() != "ok"@.len());
    }
    if has_warning(rzup, cargo_risczero, r0vm, dev_mode) {
        if dev_mode_on(dev_mode) {
            assert(cs[0].0 == "warn"@);
        } else {
            assert(cs[cs.len() - 1].0 == "warn"@);
            assert(cs[0].0 != "ok"@);
        }
    } else {
        assert forall|i: int| 0 <= i < cs.len() implies cs[i].0 != "warn"@ by {
            if i > 0 {
                assert(cs[i].0 == "info"@);
            }
        }
    }
}

} // verus!
