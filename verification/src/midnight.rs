//! Honest Midnight observer — a CPU-only proving target.
//!
//! Midnight does **not** and **cannot** prove on the Metal GPU on a Mac, on two
//! independent grounds: the stock proof server is CPU-only (Plonk + KZG over
//! BLS12-381; the only GPU fork is NVIDIA-CUDA-only), and it runs inside a Linux
//! Docker container that has no Metal passthrough on macOS. So this module never
//! claims a Metal lane. It decides what the firsthand-checkable signals mean:
//! `compactc` presence, proof-server reachability (`/health`), env routing, and
//! container identity. It does **not** parse the proof server's verbose logs.
use crate::sanitize::{redact, redacted, HostIdentity};
use crate::target::ValidationStatus;
use crate::text::{
    cat, chars_eq, chars_of, contains, contains_str, lemma_occurs_prefix, lemma_occurs_shift, occurs_at, decimal, decimal_of, find_char, find_chars,
    find_from, is_ws, or_text, lines, lines_of, lower, lower_chars, opt_view, owned, pad_right,
    pad_right_chars, parse_u16, parse_u16_exec, push_chars, push_or, rfind_char, rfind_char_exec, seq_lt,
    seq_lt_exec, lemma_seq_lt_order, seqs, slice_chars, starts_with, str_eq, string_of, strs, trim, trim_chars,
};
use vstd::prelude::*;

verus! {

broadcast use vstd::string::group_string_axioms;

/// The proof server's prove URL when none is configured.
pub open spec fn default_prove_url() -> Seq<char> {
    "http://127.0.0.1:6300/prove"@
}

/// The stated, firsthand-grounded reason Midnight has no Metal lane on a Mac.
pub open spec fn metal_na_reason() -> Seq<char> {
    "Structurally impossible on Apple Silicon: the stock Midnight proof server is CPU-only (Plonk + KZG over BLS12-381), the only GPU fork (Nocy) is NVIDIA-CUDA-only, and the server runs inside a Linux Docker container with no Metal passthrough."@
}

// ------------------------------------------------------------ URL parsing

/// Where the port came from: an explicit valid port, the scheme default (no
/// port segment), or a present-but-unparseable port (surfaced, never silently
/// rebound to a default).
#[derive(Debug)]
pub enum PortKind {
    Valid(u16),
    Default(u16),
    Malformed(String),
}

/// Scheme, host and port of a URL's authority.
#[derive(Debug)]
pub struct Authority {
    pub scheme: String,
    pub host: String,
    pub port: PortKind,
}

/// Scheme and remainder of a URL: split at the first `"://"`, or `http` and
/// the whole text when there is none.
pub open spec fn split_scheme(url: Seq<char>) -> (Seq<char>, Seq<char>) {
    let i = find_from(url, "://"@, 0);
    if i >= 0 {
        (url.take(i), url.skip(i + 3))
    } else {
        ("http"@, url)
    }
}

pub open spec fn is_delim(c: char) -> bool {
    c == '/' || c == '?' || c == '#'
}

/// Index of the first `'/'`, `'?'` or `'#'` in `s`, or `s.len()`.
pub open spec fn find_delim(s: Seq<char>) -> nat
    decreases s.len(),
{
    if s.len() == 0 || is_delim(s[0]) {
        0
    } else {
        1 + find_delim(s.drop_first())
    }
}

/// The authority of a URL remainder: everything before the path, query or
/// fragment.
pub open spec fn authority_part(rest: Seq<char>) -> Seq<char> {
    rest.take(find_delim(rest) as int)
}

/// Host and optional port text of an authority. A bracketed IPv6 literal keeps
/// its `':'`s; otherwise the port follows the last `':'`, provided a host
/// precedes it.
pub open spec fn host_part(auth: Seq<char>) -> (Seq<char>, Option<Seq<char>>) {
    if auth.len() > 0 && auth[0] == '[' {
        let r = auth.drop_first();
        let k = find_char(r, ']') as int;
        if k < r.len() {
            (
                r.take(k),
                if k + 1 < r.len() && r[k + 1] == ':' {
                    Some(r.skip(k + 2))
                } else {
                    None
                },
            )
        } else {
            (r, None)
        }
    } else {
        let c = rfind_char(auth, ':');
        if c > 0 {
            (auth.take(c), Some(auth.skip(c + 1)))
        } else {
            (auth, None)
        }
    }
}

pub open spec fn default_port(scheme: Seq<char>) -> u16 {
    if scheme == "https"@ {
        443
    } else {
        80
    }
}

/// `pk` is the port that the port text `p` gives, with default `dflt`.
pub open spec fn port_matches(pk: PortKind, p: Option<Seq<char>>, dflt: u16) -> bool {
    match p {
        None => pk == PortKind::Default(dflt),
        Some(t) => if t.len() == 0 {
            pk == PortKind::Default(dflt)
        } else {
            match parse_u16(t) {
                Some(n) => pk == PortKind::Valid(n),
                None => pk matches PortKind::Malformed(raw) && raw@ == t,
            }
        },
    }
}

/// `a` is the authority of `url`.
pub open spec fn parsed_authority(url: Seq<char>, a: Authority) -> bool {
    let sr = split_scheme(url);
    let hp = host_part(authority_part(sr.1));
    &&& a.scheme@ == sr.0
    &&& a.host@ == hp.0
    &&& port_matches(a.port, hp.1, default_port(sr.0))
}

proof fn lemma_find_delim(s: Seq<char>, k: int)
    requires
        0 <= k <= s.len(),
        forall|i: int| 0 <= i < k ==> !is_delim(#[trigger] s[i]),
        k == s.len() || is_delim(s[k]),
    ensures
        find_delim(s) == k,
    decreases k,
{
    if k > 0 {
        lemma_find_delim(s.drop_first(), k - 1);
    }
}

proof fn lemma_find_char_at(s: Seq<char>, c: char, k: int)
    requires
        0 <= k <= s.len(),
        forall|i: int| 0 <= i < k ==> s[i] != c,
        k == s.len() || s[k] == c,
    ensures
        find_char(s, c) == k,
    decreases k,
{
    if k > 0 {
        lemma_find_char_at(s.drop_first(), c, k - 1);
    }
}

/// Parse the scheme, host and port out of a URL (std-only; no url crate).
pub fn parse_authority(url: &str) -> (a: Authority)
    ensures
        parsed_authority(url@, a),
{
    let u = chars_of(url);
    let sep = chars_of("://");
    proof {
        reveal_strlit("://");
    }
    let (scheme, rest) = match find_chars(&u, &sep) {
        Some(i) => (slice_chars(&u, 0, i), slice_chars(&u, i + 3, u.len())),
        None => (chars_of("http"), slice_chars(&u, 0, u.len())),
    };
    assert(scheme@ == split_scheme(url@).0);
    assert(rest@ =~= split_scheme(url@).1);
    let mut d: usize = 0;
    while d < rest.len() && !(rest[d] == '/' || rest[d] == '?' || rest[d] == '#')
        invariant
            d <= rest.len(),
            forall|i: int| 0 <= i < d ==> !is_delim(#[trigger] rest@[i]),
        decreases rest.len() - d,
    {
        d = d + 1;
    }
    proof {
        lemma_find_delim(rest@, d as int);
    }
    let auth = slice_chars(&rest, 0, d);
    assert(auth@ =~= authority_part(rest@));
    let (host, port_text): (Vec<char>, Option<Vec<char>>) = if auth.len() > 0 && auth[0] == '[' {
        let r = slice_chars(&auth, 1, auth.len());
        assert(r@ =~= auth@.drop_first());
        let mut k: usize = 0;
        while k < r.len() && r[k] != ']'
            invariant
                k <= r.len(),
                forall|i: int| 0 <= i < k ==> r@[i] != ']',
            decreases r.len() - k,
        {
            k = k + 1;
        }
        proof {
            lemma_find_char_at(r@, ']', k as int);
        }
        if k < r.len() {
            let h = slice_chars(&r, 0, k);
            assert(h@ =~= r@.take(k as int));
            if k + 1 < r.len() && r[k + 1] == ':' {
                let p = slice_chars(&r, k + 2, r.len());
                assert(p@ =~= r@.skip(k + 2));
                (h, Some(p))
            } else {
                (h, None)
            }
        } else {
            (r, None)
        }
    } else {
        match rfind_char_exec(&auth, ':') {
            Some(c) => if c > 0 {
                let h = slice_chars(&auth, 0, c);
                let p = slice_chars(&auth, c + 1, auth.len());
                assert(h@ =~= auth@.take(c as int));
                assert(p@ =~= auth@.skip(c + 1));
                (h, Some(p))
            } else {
                (slice_chars(&auth, 0, auth.len()), None)
            },
            None => (slice_chars(&auth, 0, auth.len()), None),
        }
    };
    proof {
        let hp = host_part(auth@);
        assert(host@ =~= hp.0);
        assert(port_text matches Some(p) ==> hp.1 == Some(p@));
        assert(port_text is None ==> hp.1 is None);
    }
    let https = chars_of("https");
    let dflt: u16 = if chars_eq(&scheme, &https) {
        443
    } else {
        80
    };
    let port = match port_text {
        None => PortKind::Default(dflt),
        Some(p) => if p.len() == 0 {
            PortKind::Default(dflt)
        } else {
            match parse_u16_exec(&p) {
                Some(n) => PortKind::Valid(n),
                None => PortKind::Malformed(string_of(&p)),
            }
        },
    };
    Authority { scheme: string_of(&scheme), host: string_of(&host), port }
}

/// A loopback or wildcard host.
pub open spec fn is_local_host(host: Seq<char>) -> bool {
    ||| host == "127.0.0.1"@
    ||| host == "localhost"@
    ||| host == "::1"@
    ||| host == "[::1]"@
    ||| host == "0.0.0.0"@
}

pub fn is_local(host: &str) -> (r: bool)
    ensures
        r == is_local_host(host@),
{
    str_eq(host, "127.0.0.1") || str_eq(host, "localhost") || str_eq(host, "::1") || str_eq(
        host,
        "[::1]",
    ) || str_eq(host, "0.0.0.0")
}

/// `"localhost"` or `"remote"`, by the host.
pub open spec fn locality_of(host: Seq<char>) -> Seq<char> {
    if is_local_host(host) {
        "localhost"@
    } else {
        "remote"@
    }
}

impl Authority {
    /// Whether a `/health` request is made once the port answers: plain HTTP
    /// only (no TLS here).
    pub fn wants_health(&self) -> (r: bool)
        ensures
            r == (self.scheme@ == "http"@),
    {
        str_eq(self.scheme.as_str(), "http")
    }

    /// The port to probe, unless the URL's port is malformed.
    pub fn probe_port(&self) -> (r: Option<u16>)
        ensures
            r == match self.port {
                PortKind::Valid(p) => Some(p),
                PortKind::Default(p) => Some(p),
                PortKind::Malformed(_) => None::<u16>,
            },
    {
        match &self.port {
            PortKind::Valid(p) => Some(*p),
            PortKind::Default(p) => Some(*p),
            PortKind::Malformed(_) => None,
        }
    }
}

// ------------------------------------------------------------ proof server

/// What the proof-server probe observed, and what it means.
#[derive(Debug)]
pub struct ProofServerProbe {
    pub prove_url: String,
    pub url_source: String,
    pub host: String,
    pub port: u16,
    pub locality: String,
    pub tcp_listening: bool,
    pub health_status_line: Option<String>,
    /// Reachability status of the proof-server transport (NOT a proving or
    /// Metal claim): `Unconfigured` if nothing listens, `Remote` if reachable
    /// off-host (round-trip only), `Reachable` if a localhost port answered.
    pub status: ValidationStatus,
    pub summary: String,
}

/// The prove URL and where it came from: the environment's value when it is
/// set and non-empty, else the default.
pub open spec fn prove_url_choice(env: Option<Seq<char>>) -> (Seq<char>, Seq<char>) {
    match env {
        Some(u) => if u.len() > 0 {
            (u, "env: ZKF_MIDNIGHT_PROOF_SERVER_PROVE_URL"@)
        } else {
            (default_prove_url(), "default (no ZKF_MIDNIGHT_PROOF_SERVER_PROVE_URL set)"@)
        },
        None => (default_prove_url(), "default (no ZKF_MIDNIGHT_PROOF_SERVER_PROVE_URL set)"@),
    }
}

/// Choose the prove URL from `ZKF_MIDNIGHT_PROOF_SERVER_PROVE_URL` (as read by
/// the caller; absent when unset or not Unicode).
pub fn prove_url(env: Option<String>) -> (r: (String, String))
    ensures
        (r.0@, r.1@) == prove_url_choice(opt_view(env)),
{
    match env {
        Some(u) => if u.as_str().is_empty() {
            (
                owned("http://127.0.0.1:6300/prove"),
                owned("default (no ZKF_MIDNIGHT_PROOF_SERVER_PROVE_URL set)"),
            )
        } else {
            (u, owned("env: ZKF_MIDNIGHT_PROOF_SERVER_PROVE_URL"))
        },
        None => (
            owned("http://127.0.0.1:6300/prove"),
            owned("default (no ZKF_MIDNIGHT_PROOF_SERVER_PROVE_URL set)"),
        ),
    }
}

/// `host:port`.
pub open spec fn endpoint(host: Seq<char>, port: u16) -> Seq<char> {
    host + ":"@ + decimal(port as nat)
}

/// The assessment of a proof server at `a`, given whether its port answered
/// and the `/health` status line that was read (if any).
pub open spec fn assessed(
    url: Seq<char>,
    source: Seq<char>,
    a: Authority,
    listening: bool,
    health: Option<Seq<char>>,
    host: HostIdentity,
    r: ProofServerProbe,
) -> bool {
    &&& r.prove_url@ == redacted(url, host)
    &&& r.url_source@ == source
    &&& r.host@ == a.host@
    &&& r.locality@ == locality_of(a.host@)
    &&& match a.port {
        PortKind::Malformed(raw) => {
            &&& r.port == 0
            &&& !r.tcp_listening
            &&& r.health_status_line is None
            &&& r.status == ValidationStatus::Unconfigured
            &&& r.summary@ == "URL has a malformed port ('"@ + raw@ + "') — not probed"@
        },
        PortKind::Valid(p) | PortKind::Default(p) => {
            let h = if listening && a.scheme@ == "http"@ {
                health
            } else {
                None
            };
            &&& r.port == p
            &&& r.tcp_listening == listening
            &&& opt_view(r.health_status_line) == h
            &&& if !listening {
                &&& r.status == ValidationStatus::Unconfigured
                &&& r.summary@ == "nothing listening on "@ + endpoint(a.host@, p)
                    + " — proving lane not set up here"@
            } else if !is_local_host(a.host@) {
                &&& r.status == ValidationStatus::Remote
                &&& r.summary@ == endpoint(a.host@, p)
                    + " reachable; round-trip only, not locally observed"@
            } else {
                &&& r.status == ValidationStatus::Reachable
                &&& r.summary@ == match h {
                    Some(line) => "reachable on "@ + endpoint(a.host@, p) + " (GET /health → "@
                        + line + ")"@,
                    None => "reachable on "@ + endpoint(a.host@, p) + " (no /health response)"@,
                }
            }
        },
    }
}

/// A proof-server probe states transport reachability only: whatever was
/// observed, it never reports a `Validated` lane, and it reports `Reachable`
/// or `Remote` only when the port answered.
pub proof fn law_proof_server_never_validated(
    url: Seq<char>,
    source: Seq<char>,
    a: Authority,
    listening: bool,
    health: Option<Seq<char>>,
    host: HostIdentity,
    r: ProofServerProbe,
)
    requires
        assessed(url, source, a, listening, health, host, r),
    ensures
        r.status != ValidationStatus::Validated,
        (r.status == ValidationStatus::Reachable || r.status == ValidationStatus::Remote)
            ==> r.tcp_listening,
{
}

fn endpoint_exec(host: &String, port: u16) -> (r: String)
    ensures
        r@ == endpoint(host@, port),
{
    let mut s = cat(host.as_str(), ":");
    push_chars(&mut s, &decimal_of(port as u64));
    s
}

/// Decide what a proof-server probe means. `parsed` is the authority of
/// `prove_url`; `listening` is whether a TCP connect to its port succeeded and
/// `health` the first line of the answer to `GET /health` (both are ignored
/// when the port is malformed: nothing is probed then).
pub fn assess_proof_server(
    prove_url: &str,
    url_source: String,
    parsed: &Authority,
    listening: bool,
    health: Option<String>,
    host: &HostIdentity,
) -> (r: ProofServerProbe)
    ensures
        assessed(prove_url@, url_source@, *parsed, listening, opt_view(health), *host, r),
{
    let locality = if is_local(parsed.host.as_str()) {
        owned("localhost")
    } else {
        owned("remote")
    };
    let shown_url = redact(prove_url, host);
    let host_name = string_of(&chars_of(parsed.host.as_str()));
    match &parsed.port {
        PortKind::Malformed(raw) => {
            let mut summary = cat("URL has a malformed port ('", raw.as_str());
            summary.append("') — not probed");
            ProofServerProbe {
                prove_url: shown_url,
                url_source,
                host: host_name,
                port: 0,
                locality,
                tcp_listening: false,
                health_status_line: None,
                status: ValidationStatus::Unconfigured,
                summary,
            }
        },
        PortKind::Valid(p) | PortKind::Default(p) => {
            let port: u16 = *p;
            let want = listening && parsed.wants_health();
            let health_line: Option<String> = if want {
                health
            } else {
                None
            };
            let ep = endpoint_exec(&host_name, port);
            let (status, summary) = if !listening {
                let mut s = cat("nothing listening on ", ep.as_str());
                s.append(" — proving lane not set up here");
                (ValidationStatus::Unconfigured, s)
            } else if !is_local(parsed.host.as_str()) {
                let mut s = cat(ep.as_str(), " reachable; round-trip only, not locally observed");
                (ValidationStatus::Remote, s)
            } else {
                let s = match &health_line {
                    Some(line) => {
                        let mut s = cat("reachable on ", ep.as_str());
                        s.append(" (GET /health → ");
                        s.append(line.as_str());
                        s.append(")");
                        s
                    },
                    None => {
                        let mut s = cat("reachable on ", ep.as_str());
                        s.append(" (no /health response)");
                        s
                    },
                };
                (ValidationStatus::Reachable, s)
            };
            ProofServerProbe {
                prove_url: shown_url,
                url_source,
                host: host_name,
                port,
                locality,
                tcp_listening: listening,
                health_status_line: health_line,
                status,
                summary,
            }
        },
    }
}

// ------------------------------------------------------------ docker

#[derive(Debug)]
pub struct DockerProbe {
    pub docker_available: bool,
    pub proof_server_containers: Vec<String>,
    pub note: String,
}

/// A `docker ps` line that names a Midnight proof-server container.
pub open spec fn is_proof_server_line(line: Seq<char>) -> bool {
    contains(lower(line), "proof-server"@) || contains(lower(line), "midnight"@)
}

/// The (trimmed) proof-server container lines of `ls`, in order.
pub open spec fn container_lines(ls: Seq<Seq<char>>) -> Seq<Seq<char>>
    decreases ls.len(),
{
    if ls.len() == 0 {
        seq![]
    } else {
        let p = container_lines(ls.drop_last());
        if is_proof_server_line(ls.last()) {
            p.push(trim(ls.last()))
        } else {
            p
        }
    }
}

/// What `docker ps` output (when the command ran and succeeded) says about
/// running proof-server containers.
pub open spec fn docker_assessed(available: bool, ps: Option<Seq<char>>, r: DockerProbe) -> bool {
    if !available {
        &&& !r.docker_available
        &&& r.proof_server_containers@.len() == 0
        &&& r.note@
            == "docker not found — the Midnight proof server normally runs as a Linux container (midnightntwrk/proof-server)."@
    } else {
        let found = match ps {
            Some(t) => container_lines(lines(t)),
            None => seq![],
        };
        &&& r.docker_available
        &&& strs(r.proof_server_containers@) == found
        &&& r.note@ == if found.len() == 0 {
            "docker is available but no Midnight proof-server container is running. (A Linux container on macOS has no Metal access in any case.)"@
        } else {
            "Proof-server container(s) found. They run Linux in Docker's VM — CPU-only, no Metal passthrough."@
        }
    }
}

/// Decide what the docker probe found. `available` is whether `docker
/// --version` ran; `ps_stdout` the output of a successful `docker ps`.
pub fn docker_probe(available: bool, ps_stdout: Option<String>) -> (r: DockerProbe)
    ensures
        docker_assessed(available, opt_view(ps_stdout), r),
{
    if !available {
        return DockerProbe {
            docker_available: false,
            proof_server_containers: Vec::new(),
            note: owned(
                "docker not found — the Midnight proof server normally runs as a Linux container (midnightntwrk/proof-server).",
            ),
        };
    }
    let mut containers: Vec<String> = Vec::new();
    match &ps_stdout {
        Some(text) => {
            let ls = lines_of(&chars_of(text.as_str()));
            let mut i: usize = 0;
            while i < ls.len()
                invariant
                    i <= ls.len(),
                    seqs(ls@) == lines(text@),
                    strs(containers@) == container_lines(seqs(ls@).take(i as int)),
                decreases ls.len() - i,
            {
                proof {
                    assert(seqs(ls@).take(i + 1).drop_last() =~= seqs(ls@).take(i as int));
                }
                let l = lower_chars(&ls[i]);
                if contains_str(&l, "proof-server") || contains_str(&l, "midnight") {
                    let t = string_of(&trim_chars(&ls[i]));
                    let ghost before = strs(containers@);
                    containers.push(t);
                    assert(strs(containers@) =~= before.push(t@));
                }
                i = i + 1;
            }
            assert(seqs(ls@).take(ls.len() as int) =~= seqs(ls@));
        },
        None => {
            assert(strs(containers@) =~= Seq::<Seq<char>>::empty());
        },
    }
    let note = if containers.len() == 0 {
        owned(
            "docker is available but no Midnight proof-server container is running. (A Linux container on macOS has no Metal access in any case.)",
        )
    } else {
        owned(
            "Proof-server container(s) found. They run Linux in Docker's VM — CPU-only, no Metal passthrough.",
        )
    };
    DockerProbe { docker_available: true, proof_server_containers: containers, note }
}

// ------------------------------------------------------------ env routing

#[derive(Debug)]
pub struct EnvVar {
    pub name: &'static str,
    pub set: bool,
    pub value: Option<String>,
}

/// The environment variables that route Midnight proving, in report order.
pub fn routing_var_names() -> (r: Vec<&'static str>)
    ensures
        r@.len() == 3,
        r@[0]@ == "ZKF_MIDNIGHT_PROOF_SERVER_PROVE_URL"@,
        r@[1]@ == "ZKF_MIDNIGHT_PROOF_SERVER_VERIFY_URL"@,
        r@[2]@ == "ZKF_MIDNIGHT_ALLOW_COMPAT_DELEGATE"@,
{
    let mut v: Vec<&'static str> = Vec::new();
    v.push("ZKF_MIDNIGHT_PROOF_SERVER_PROVE_URL");
    v.push("ZKF_MIDNIGHT_PROOF_SERVER_VERIFY_URL");
    v.push("ZKF_MIDNIGHT_ALLOW_COMPAT_DELEGATE");
    v
}

/// One routing variable as reported: set when present and non-empty, its value
/// redacted.
pub fn env_var(name: &'static str, value: Option<String>, host: &HostIdentity) -> (r: EnvVar)
    ensures
        r.name == name,
        r.set == (value matches Some(v) && v@.len() > 0),
        opt_view(r.value) == match value {
            Some(v) => Some(redacted(v@, *host)),
            None => None,
        },
{
    match value {
        Some(v) => {
            let set = !v.as_str().is_empty();
            EnvVar { name, set, value: Some(redact(v.as_str(), host)) }
        },
        None => EnvVar { name, set: false, value: None },
    }
}

// ------------------------------------------------------------ compactc

#[derive(Debug)]
pub struct ToolStatus {
    pub found: bool,
    pub version: Option<String>,
    pub path: Option<String>,
    pub note: String,
}

/// The architecture directories searched under `~/.compact/versions/<ver>/`.
pub fn compactc_arch_dirs() -> (r: Vec<&'static str>)
    ensures
        r@.len() == 2,
        r@[0]@ == "aarch64-darwin"@,
        r@[1]@ == "x86_64-darwin"@,
{
    let mut v: Vec<&'static str> = Vec::new();
    v.push("aarch64-darwin");
    v.push("x86_64-darwin");
    v
}

/// Index `i` holds the newest version of `vers`, the first one if several tie.
pub open spec fn is_first_newest(vers: Seq<Seq<char>>, i: int) -> bool {
    &&& 0 <= i < vers.len()
    &&& forall|j: int| 0 <= j < i ==> seq_lt(#[trigger] vers[j], vers[i])
    &&& forall|j: int| i < j < vers.len() ==> !seq_lt(vers[i], #[trigger] vers[j])
}

/// Pick the newest installed `compactc` among candidates `(version dir, binary
/// path)` listed in directory order: the first with the greatest version.
pub fn newest_install(cands: &Vec<(String, String)>) -> (r: Option<usize>)
    ensures
        match r {
            Some(i) => is_first_newest(cands@.map_values(|c: (String, String)| c.0@), i as int),
            None => cands@.len() == 0,
        },
{
    let ghost vers = cands@.map_values(|c: (String, String)| c.0@);
    if cands.len() == 0 {
        return None;
    }
    let mut best: usize = 0;
    let mut best_v = chars_of(cands[0].0.as_str());
    let mut i: usize = 1;
    while i < cands.len()
        invariant
            1 <= i <= cands.len(),
            best < i,
            vers == cands@.map_values(|c: (String, String)| c.0@),
            best_v@ == vers[best as int],
            forall|j: int| 0 <= j < best ==> seq_lt(#[trigger] vers[j], vers[best as int]),
            forall|j: int| best < j < i ==> !seq_lt(vers[best as int], #[trigger] vers[j]),
        decreases cands.len() - i,
    {
        let v = chars_of(cands[i].0.as_str());
        if seq_lt_exec(&best_v, &v) {
            proof {
                assert forall|j: int| 0 <= j < i implies seq_lt(#[trigger] vers[j], vers[i as int]) by {
                    lemma_seq_lt_order(vers[j], vers[best as int], vers[i as int]);
                    lemma_seq_lt_order(vers[best as int], vers[j], vers[i as int]);
                    if j != best && j > best {
                        if vers[j] != vers[best as int] {
                            assert(seq_lt(vers[j], vers[best as int]));
                        }
                    }
                }
            }
            best = i;
            best_v = v;
        }
        i = i + 1;
    }
    Some(best)
}

/// What is reported about `compactc`: found on `PATH` (with its version line),
/// else found in an install directory (version, binary path), else not found.
pub open spec fn compactc_reported(
    on_path: Option<Seq<char>>,
    installed: Option<(Option<Seq<char>>, Seq<char>)>,
    host: HostIdentity,
    r: ToolStatus,
) -> bool {
    match on_path {
        Some(v) => {
            &&& r.found
            &&& opt_view(r.version) == Some(v)
            &&& opt_view(r.path) == Some("compactc (on PATH)"@)
            &&& r.note@ == "compactc compiles Compact → .zkir; it does not prove."@
        },
        None => match installed {
            Some((v, bin)) => {
                &&& r.found
                &&& opt_view(r.version) == v
                &&& opt_view(r.path) == Some(redacted(bin, host))
                &&& r.note@ == "compactc compiles Compact → .zkir; it does not prove."@
            },
            None => {
                &&& !r.found
                &&& r.version is None
                &&& r.path is None
                &&& r.note@
                    == "compactc not found on PATH or under ~/.compact/versions — install the Compact toolchain to compile circuits."@
            },
        },
    }
}

/// Report `compactc`. `on_path` is the version line of `compactc --version`
/// when it ran from `PATH`; `installed` the version line (if any) and path of
/// the newest binary in an install directory.
pub fn compactc_status(
    on_path: Option<String>,
    installed: Option<(Option<String>, String)>,
    host: &HostIdentity,
) -> (r: ToolStatus)
    ensures
        compactc_reported(
            opt_view(on_path),
            match installed {
                Some((v, b)) => Some((opt_view(v), b@)),
                None => None,
            },
            *host,
            r,
        ),
{
    match on_path {
        Some(v) => ToolStatus {
            found: true,
            version: Some(v),
            path: Some(owned("compactc (on PATH)")),
            note: owned("compactc compiles Compact → .zkir; it does not prove."),
        },
        None => match installed {
            Some((v, bin)) => ToolStatus {
                found: true,
                version: v,
                path: Some(redact(bin.as_str(), host)),
                note: owned("compactc compiles Compact → .zkir; it does not prove."),
            },
            None => ToolStatus {
                found: false,
                version: None,
                path: None,
                note: owned(
                    "compactc not found on PATH or under ~/.compact/versions — install the Compact toolchain to compile circuits.",
                ),
            },
        },
    }
}

// ------------------------------------------------------------ the report

#[derive(Debug)]
pub struct MidnightReport {
    pub target: &'static str,
    /// First-class stated finding — the headline, never a silent omission.
    pub finding: &'static str,
    pub metal_lane: &'static str,
    pub compute_lane: &'static str,
    pub proving_system: &'static str,
    pub compactc: ToolStatus,
    pub proof_server: ProofServerProbe,
    pub docker: DockerProbe,
    pub env_routing: Vec<EnvVar>,
    pub notes: Vec<String>,
}

pub open spec fn note_compactc() -> Seq<char> {
    "compactc is installed, but it only COMPILES Compact to .zkir — it does not prove. Proving needs a running proof server."@
}

pub open spec fn note_remote() -> Seq<char> {
    "The prove URL is remote: only round-trip reachability is observable here — no local container, no logs, no proving run was watched."@
}

pub open spec fn note_unconfigured() -> Seq<char> {
    "Nothing is listening on the prove URL — the Midnight proving lane is UNCONFIGURED on this machine, not ready."@
}

pub open spec fn note_snark() -> Seq<char> {
    "Midnight is a classical, trusted-setup pairing SNARK (NOT post-quantum, NOT a STARK). GPU proving for Midnight exists only as a third-party NVIDIA-CUDA fork on Linux — never on Apple Silicon."@
}

pub open spec fn note_no_log_parser() -> Seq<char> {
    "This observer does not parse the proof server's verbose logs: no -v log schema has been verified firsthand, so any log-lane parser is left as an explicit experimental slot."@
}

/// The notes of a Midnight report, given what the probes found.
pub open spec fn midnight_notes(compactc_found: bool, locality: Seq<char>, listening: bool) -> Seq<
    Seq<char>,
> {
    let a = if compactc_found {
        seq![note_compactc()]
    } else {
        seq![]
    };
    let b = if locality == "remote"@ {
        a.push(note_remote())
    } else {
        a
    };
    let c = if !listening {
        b.push(note_unconfigured())
    } else {
        b
    };
    c.push(note_snark()).push(note_no_log_parser())
}

/// `r` is the Midnight report assembled from these probe results: the fixed
/// finding, N/A Metal lane, CPU compute lane and proving system, the probe
/// results as given, and the notes they call for.
pub open spec fn is_midnight_report(
    r: MidnightReport,
    compactc: ToolStatus,
    proof_server: ProofServerProbe,
    docker: DockerProbe,
    env_routing: Vec<EnvVar>,
) -> bool {
    &&& r.target@ == "midnight"@
    &&& r.finding@ == "Midnight proving is CPU-only on Apple Silicon. Metal is not applicable."@
    &&& r.metal_lane@ == metal_na_reason()
    &&& r.compute_lane@
        == "cpu — Plonk/KZG over BLS12-381 runs on the CPU (blst MSM + rayon). Inferred from the architecture; this tool does not itself measure GPU utilization."@
    &&& r.proving_system@
        == "Plonk + KZG over BLS12-381 (JubJub embedded), halo2 lineage — classical, trusted-setup SNARK; not post-quantum, not a STARK/FRI system"@
    &&& r.compactc == compactc
    &&& r.proof_server == proof_server
    &&& r.docker == docker
    &&& r.env_routing == env_routing
    &&& strs(r.notes@) == midnight_notes(
        compactc.found,
        proof_server.locality@,
        proof_server.tcp_listening,
    )
}

/// Assemble the Midnight report from the firsthand probe results. The Metal
/// lane is always the stated N/A reason and the compute lane is the CPU.
pub fn probe(
    compactc: ToolStatus,
    proof_server: ProofServerProbe,
    docker: DockerProbe,
    env_routing: Vec<EnvVar>,
) -> (r: MidnightReport)
    ensures
        is_midnight_report(r, compactc, proof_server, docker, env_routing),
{
    let mut notes: Vec<String> = Vec::new();
    if compactc.found {
        notes.push(
            owned(
                "compactc is installed, but it only COMPILES Compact to .zkir — it does not prove. Proving needs a running proof server.",
            ),
        );
    }
    let ghost a = strs(notes@);
    if str_eq(proof_server.locality.as_str(), "remote") {
        notes.push(
            owned(
                "The prove URL is remote: only round-trip reachability is observable here — no local container, no logs, no proving run was watched.",
            ),
        );
        assert(strs(notes@) =~= a.push(note_remote()));
    }
    let ghost b = strs(notes@);
    if !proof_server.tcp_listening {
        notes.push(
            owned(
                "Nothing is listening on the prove URL — the Midnight proving lane is UNCONFIGURED on this machine, not ready.",
            ),
        );
        assert(strs(notes@) =~= b.push(note_unconfigured()));
    }
    let ghost c = strs(notes@);
    notes.push(
        owned(
            "Midnight is a classical, trusted-setup pairing SNARK (NOT post-quantum, NOT a STARK). GPU proving for Midnight exists only as a third-party NVIDIA-CUDA fork on Linux — never on Apple Silicon.",
        ),
    );
    notes.push(
        owned(
            "This observer does not parse the proof server's verbose logs: no -v log schema has been verified firsthand, so any log-lane parser is left as an explicit experimental slot.",
        ),
    );
    assert(strs(notes@) =~= c.push(note_snark()).push(note_no_log_parser()));
    assert(strs(notes@) =~= midnight_notes(
        compactc.found,
        proof_server.locality@,
        proof_server.tcp_listening,
    ));
    MidnightReport {
        target: "midnight",
        finding: "Midnight proving is CPU-only on Apple Silicon. Metal is not applicable.",
        metal_lane: "Structurally impossible on Apple Silicon: the stock Midnight proof server is CPU-only (Plonk + KZG over BLS12-381), the only GPU fork (Nocy) is NVIDIA-CUDA-only, and the server runs inside a Linux Docker container with no Metal passthrough.",
        compute_lane: "cpu — Plonk/KZG over BLS12-381 runs on the CPU (blst MSM + rayon). Inferred from the architecture; this tool does not itself measure GPU utilization.",
        proving_system: "Plonk + KZG over BLS12-381 (JubJub embedded), halo2 lineage — classical, trusted-setup SNARK; not post-quantum, not a STARK/FRI system",
        compactc,
        proof_server,
        docker,
        env_routing,
        notes,
    }
}

// ------------------------------------------------------------ rendering

pub open spec fn compactc_line(c: ToolStatus) -> Seq<char> {
    if c.found {
        or_text(c.version, "present"@) + " ("@ + or_text(c.path, "?"@) + ")"@
    } else {
        "not found"@
    }
}

/// One line per item of `cs`: the label, the item, a line feed.
pub open spec fn labelled_rows(label: Seq<char>, cs: Seq<Seq<char>>) -> Seq<char>
    decreases cs.len(),
{
    if cs.len() == 0 {
        seq![]
    } else {
        labelled_rows(label, cs.drop_last()) + label + cs.last() + "\n"@
    }
}

pub open spec fn container_block(cs: Seq<Seq<char>>) -> Seq<char> {
    labelled_rows("  container           "@, cs)
}

pub open spec fn env_line(e: EnvVar) -> Seq<char> {
    "  "@ + pad_right(e.name@, 42) + " "@ + or_text(e.value, "unset"@) + "\n"@
}

pub open spec fn env_block(es: Seq<EnvVar>) -> Seq<char>
    decreases es.len(),
{
    if es.len() == 0 {
        seq![]
    } else {
        env_block(es.drop_last()) + env_line(es.last())
    }
}

pub open spec fn notes_block(ns: Seq<Seq<char>>) -> Seq<char> {
    labelled_rows("  - "@, ns)
}

pub open spec fn header_section(r: MidnightReport) -> Seq<char> {
    "midnight proving target\n"@ + "  finding             "@ + r.finding@ + "\n"@
        + "  metal lane          [N/A] "@ + r.metal_lane@ + "\n"@ + "  compute lane        "@
        + r.compute_lane@ + "\n"@ + "  proving system      "@ + r.proving_system@ + "\n"@
        + "\ncompactc            "@ + compactc_line(r.compactc) + "\n"@
}

pub open spec fn proof_server_section(p: ProofServerProbe) -> Seq<char> {
    "\nproof server\n"@ + "  prove url           "@ + p.prove_url@ + "  ("@ + p.url_source@
        + ")\n"@ + "  locality            "@ + p.locality@ + "\n"@ + "  status              "@
        + p.status.spec_badge() + " "@ + p.summary@ + "\n"@
}

pub open spec fn docker_section(d: DockerProbe) -> Seq<char> {
    "\ndocker              "@ + (if d.docker_available {
        "available"@
    } else {
        "not found"@
    }) + "\n"@ + container_block(strs(d.proof_server_containers@)) + "  "@ + d.note@ + "\n"@
}

/// The human-readable rendering of a Midnight report.
pub open spec fn rendered(r: MidnightReport) -> Seq<char> {
    header_section(r) + proof_server_section(r.proof_server) + docker_section(r.docker)
        + "\nenv routing\n"@ + env_block(r.env_routing@) + "\nnotes\n"@ + notes_block(
        strs(r.notes@),
    )
}

fn push_header(s: &mut String, r: &MidnightReport)
    ensures
        final(s)@ == old(s)@ + header_section(*r),
{
    let ghost s0 = s@;
    s.append("midnight proving target\n");
    s.append("  finding             ");
    s.append(r.finding);
    s.append("\n");
    s.append("  metal lane          [N/A] ");
    s.append(r.metal_lane);
    s.append("\n");
    s.append("  compute lane        ");
    s.append(r.compute_lane);
    s.append("\n");
    s.append("  proving system      ");
    s.append(r.proving_system);
    s.append("\n");
    s.append("\ncompactc            ");
    let ghost s1 = s@;
    let c = &r.compactc;
    if c.found {
        push_or(s, &c.version, "present");
        s.append(" (");
        push_or(s, &c.path, "?");
        s.append(")");
    } else {
        s.append("not found");
    }
    assert(s@ =~= s1 + compactc_line(r.compactc));
    s.append("\n");
    assert(s@ =~= s0 + header_section(*r));
}

fn push_proof_server(s: &mut String, p: &ProofServerProbe)
    ensures
        final(s)@ == old(s)@ + proof_server_section(*p),
{
    let ghost s0 = s@;
    s.append("\nproof server\n");
    s.append("  prove url           ");
    s.append(p.prove_url.as_str());
    s.append("  (");
    s.append(p.url_source.as_str());
    s.append(")\n");
    s.append("  locality            ");
    s.append(p.locality.as_str());
    s.append("\n");
    s.append("  status              ");
    s.append(p.status.badge());
    s.append(" ");
    s.append(p.summary.as_str());
    s.append("\n");
    assert(s@ =~= s0 + proof_server_section(*p));
}

fn push_docker(s: &mut String, d: &DockerProbe)
    ensures
        final(s)@ == old(s)@ + docker_section(*d),
{
    let ghost s0 = s@;
    s.append("\ndocker              ");
    if d.docker_available {
        s.append("available");
    } else {
        s.append("not found");
    }
    s.append("\n");
    let ghost head = s@;
    let mut i: usize = 0;
    assert(container_block(strs(d.proof_server_containers@).take(0)) =~= Seq::<char>::empty());
    assert(s@ =~= head + container_block(strs(d.proof_server_containers@).take(0)));
    while i < d.proof_server_containers.len()
        invariant
            i <= d.proof_server_containers.len(),
            s@ == head + container_block(strs(d.proof_server_containers@).take(i as int)),
        decreases d.proof_server_containers.len() - i,
    {
        proof {
            assert(strs(d.proof_server_containers@).take(i + 1).drop_last() =~= strs(
                d.proof_server_containers@,
            ).take(i as int));
        }
        let ghost before = s@;
        s.append("  container           ");
        s.append(d.proof_server_containers[i].as_str());
        s.append("\n");
        assert(s@ =~= head + container_block(strs(d.proof_server_containers@).take(i + 1)));
        i = i + 1;
    }
    assert(strs(d.proof_server_containers@).take(i as int) =~= strs(d.proof_server_containers@));
    s.append("  ");
    s.append(d.note.as_str());
    s.append("\n");
    assert(s@ =~= s0 + docker_section(*d));
}

fn push_env_block(s: &mut String, es: &Vec<EnvVar>)
    ensures
        final(s)@ == old(s)@ + env_block(es@),
{
    let ghost head = s@;
    let mut j: usize = 0;
    assert(env_block(es@.take(0)) =~= Seq::<char>::empty());
    assert(s@ =~= head + env_block(es@.take(0)));
    while j < es.len()
        invariant
            j <= es.len(),
            s@ == head + env_block(es@.take(j as int)),
        decreases es.len() - j,
    {
        proof {
            assert(es@.take(j + 1).drop_last() =~= es@.take(j as int));
        }
        let e = &es[j];
        s.append("  ");
        push_chars(s, &pad_right_chars(&chars_of(e.name), 42));
        s.append(" ");
        push_or(s, &e.value, "unset");
        s.append("\n");
        assert(s@ =~= head + env_block(es@.take(j + 1)));
        j = j + 1;
    }
    assert(es@.take(j as int) =~= es@);
}

fn push_notes_block(s: &mut String, ns: &Vec<String>)
    ensures
        final(s)@ == old(s)@ + notes_block(strs(ns@)),
{
    let ghost head = s@;
    let mut k: usize = 0;
    assert(notes_block(strs(ns@).take(0)) =~= Seq::<char>::empty());
    assert(s@ =~= head + notes_block(strs(ns@).take(0)));
    while k < ns.len()
        invariant
            k <= ns.len(),
            s@ == head + notes_block(strs(ns@).take(k as int)),
        decreases ns.len() - k,
    {
        proof {
            assert(strs(ns@).take(k + 1).drop_last() =~= strs(ns@).take(k as int));
        }
        s.append("  - ");
        s.append(ns[k].as_str());
        s.append("\n");
        assert(s@ =~= head + notes_block(strs(ns@).take(k + 1)));
        k = k + 1;
    }
    assert(strs(ns@).take(k as int) =~= strs(ns@));
}

/// Human-readable rendering for the `midnight` subcommand.
pub fn render_human(r: &MidnightReport) -> (out: String)
    ensures
        out@ == rendered(*r),
{
    let mut s = String::new();
    push_header(&mut s, r);
    push_proof_server(&mut s, &r.proof_server);
    push_docker(&mut s, &r.docker);
    let ghost a = s@;
    s.append("\nenv routing\n");
    push_env_block(&mut s, &r.env_routing);
    s.append("\nnotes\n");
    push_notes_block(&mut s, &r.notes);
    assert(s@ =~= rendered(*r));
    s
}

/// A Midnight report never offers a Metal lane: it is the `midnight` target,
/// its Metal lane is the stated reason it is structurally impossible and is
/// rendered with the `[N/A]` badge, its compute lane is the CPU, and a proof
/// server assessed from any probe results is never `Validated`.
pub proof fn law_report_never_offers_a_metal_lane(
    r: MidnightReport,
    compactc: ToolStatus,
    docker: DockerProbe,
    env_routing: Vec<EnvVar>,
    url: Seq<char>,
    source: Seq<char>,
    a: Authority,
    listening: bool,
    health: Option<Seq<char>>,
    host: HostIdentity,
)
    requires
        is_midnight_report(r, compactc, r.proof_server, docker, env_routing),
        assessed(url, source, a, listening, health, host, r.proof_server),
    ensures
        r.target@ == "midnight"@,
        starts_with(r.metal_lane@, "Structurally impossible"@),
        starts_with(r.compute_lane@, "cpu "@),
        r.proof_server.status != ValidationStatus::Validated,
        occurs_at(rendered(r), "  metal lane          [N/A] "@ + r.metal_lane@ + "\n"@, metal_row_at(r)),
{
    reveal_strlit(
        "Structurally impossible on Apple Silicon: the stock Midnight proof server is CPU-only (Plonk + KZG over BLS12-381), the only GPU fork (Nocy) is NVIDIA-CUDA-only, and the server runs inside a Linux Docker container with no Metal passthrough.",
    );
    reveal_strlit("Structurally impossible");
    assert(r.metal_lane@.subrange(0, 23) =~= "Structurally impossible"@);
    reveal_strlit(
        "cpu — Plonk/KZG over BLS12-381 runs on the CPU (blst MSM + rayon). Inferred from the architecture; this tool does not itself measure GPU utilization.",
    );
    reveal_strlit("cpu ");
    assert(r.compute_lane@.subrange(0, 4) =~= "cpu "@);
    law_proof_server_never_validated(url, source, a, listening, health, host, r.proof_server);
    lemma_metal_row(r);
}

// ------------------------------------------------------------ rendering laws

/// Row `i` of `labelled_rows(label, cs)` stands right after the rows before
/// it.
proof fn lemma_row_in_rows(label: Seq<char>, cs: Seq<Seq<char>>, i: int)
    requires
        0 <= i < cs.len(),
    ensures
        occurs_at(
            labelled_rows(label, cs),
            label + cs[i] + "\n"@,
            labelled_rows(label, cs.take(i)).len() as int,
        ),
        labelled_rows(label, cs.take(i + 1)).len() == labelled_rows(label, cs.take(i)).len() + (
        label + cs[i] + "\n"@).len(),
    decreases cs.len(),
{
    let row = label + cs[i] + "\n"@;
    let t = cs.take(i + 1);
    assert(t.drop_last() =~= cs.take(i));
    let a = labelled_rows(label, cs.take(i));
    assert(labelled_rows(label, t) =~= a + row);
    if i == cs.len() - 1 {
        assert(t =~= cs);
        assert((a + row).subrange(a.len() as int, (a.len() + row.len()) as int) =~= row);
    } else {
        let d = cs.drop_last();
        lemma_row_in_rows(label, d, i);
        assert(d.take(i) =~= cs.take(i));
        assert(d[i] == cs[i]);
        let b = labelled_rows(label, d);
        let tail = label + cs.last() + "\n"@;
        assert(labelled_rows(label, cs) =~= b + tail);
        lemma_occurs_prefix(b, tail, row, a.len() as int);
    }
}

/// A non-empty `labelled_rows` text ends with a line feed.
proof fn lemma_rows_end_in_newline(label: Seq<char>, cs: Seq<Seq<char>>)
    requires
        cs.len() > 0,
    ensures
        labelled_rows(label, cs).len() > 0,
        labelled_rows(label, cs).last() == '\n',
{
    reveal_strlit("\n");
}

pub open spec fn metal_row(r: MidnightReport) -> Seq<char> {
    "  metal lane          [N/A] "@ + r.metal_lane@ + "\n"@
}

pub open spec fn status_row(p: ProofServerProbe) -> Seq<char> {
    "  status              "@ + p.status.spec_badge() + " "@ + p.summary@ + "\n"@
}

pub open spec fn container_row(c: Seq<char>) -> Seq<char> {
    "  container           "@ + c + "\n"@
}

pub open spec fn note_row(n: Seq<char>) -> Seq<char> {
    "  - "@ + n + "\n"@
}

pub open spec fn docker_head(d: DockerProbe) -> Seq<char> {
    "\ndocker              "@ + (if d.docker_available {
        "available"@
    } else {
        "not found"@
    }) + "\n"@
}

/// Where the Metal-lane row stands in the rendering: after the title and the
/// finding.
pub open spec fn metal_row_at(r: MidnightReport) -> int {
    ("midnight proving target\n"@ + "  finding             "@ + r.finding@ + "\n"@).len() as int
}

/// Where the proof-server status row stands: last in its section.
pub open spec fn status_row_at(r: MidnightReport) -> int {
    header_section(r).len() + proof_server_section(r.proof_server).len() - status_row(
        r.proof_server,
    ).len()
}

/// Where the `i`-th container row stands (for `i` = the number of containers:
/// just past the last one).
pub open spec fn container_row_at(r: MidnightReport, i: int) -> int {
    (header_section(r).len() + proof_server_section(r.proof_server).len() + docker_head(
        r.docker,
    ).len() + container_block(strs(r.docker.proof_server_containers@).take(i)).len()) as int
}

/// Where the `i`-th note row stands (for `i` = the number of notes: the end).
pub open spec fn note_row_at(r: MidnightReport, i: int) -> int {
    rendered(r).len() - notes_block(strs(r.notes@)).len() + notes_block(strs(r.notes@).take(i)).len()
}

/// The rendering up to the end of the docker section.
pub open spec fn through_docker(r: MidnightReport) -> Seq<char> {
    header_section(r) + proof_server_section(r.proof_server) + docker_section(r.docker)
}

/// What follows the docker section, up to the notes block.
pub open spec fn before_notes(r: MidnightReport) -> Seq<char> {
    through_docker(r) + "\nenv routing\n"@ + env_block(r.env_routing@) + "\nnotes\n"@
}

proof fn lemma_rendered_shape(r: MidnightReport)
    ensures
        rendered(r) == before_notes(r) + notes_block(strs(r.notes@)),
        note_row_at(r, 0) == before_notes(r).len(),
{
    assert(strs(r.notes@).take(0) =~= Seq::<Seq<char>>::empty());
}

/// An occurrence before the end of the docker section is one in the rendering.
proof fn lemma_kept_in_rendered(r: MidnightReport, x: Seq<char>, q: int)
    requires
        occurs_at(through_docker(r), x, q),
    ensures
        occurs_at(rendered(r), x, q),
{
    let p3 = through_docker(r);
    let e1 = "\nenv routing\n"@;
    let eb = env_block(r.env_routing@);
    lemma_occurs_prefix(p3, e1, x, q);
    lemma_occurs_prefix(p3 + e1, eb, x, q);
    lemma_occurs_prefix(p3 + e1 + eb, "\nnotes\n"@, x, q);
    lemma_rendered_shape(r);
    lemma_occurs_prefix(before_notes(r), notes_block(strs(r.notes@)), x, q);
}

proof fn lemma_title_and_end(r: MidnightReport)
    ensures
        starts_with(rendered(r), "midnight proving target\n"@),
        rendered(r).len() > 0 && rendered(r).last() == '\n',
{
    let title = "midnight proving target\n"@;
    let h = header_section(r);
    assert(h.subrange(0, title.len() as int) =~= title);
    assert(occurs_at(h, title, 0));
    lemma_occurs_prefix(h, proof_server_section(r.proof_server), title, 0);
    lemma_occurs_prefix(
        h + proof_server_section(r.proof_server),
        docker_section(r.docker),
        title,
        0,
    );
    lemma_kept_in_rendered(r, title, 0);
    lemma_rendered_shape(r);
    reveal_strlit("\nnotes\n");
    let ns = strs(r.notes@);
    if ns.len() > 0 {
        lemma_rows_end_in_newline("  - "@, ns);
    }
}

proof fn lemma_metal_row(r: MidnightReport)
    ensures
        occurs_at(rendered(r), metal_row(r), metal_row_at(r)),
        metal_row_at(r) + metal_row(r).len() <= header_section(r).len(),
{
    let h = header_section(r);
    let m = metal_row(r);
    let pre = "midnight proving target\n"@ + "  finding             "@ + r.finding@ + "\n"@;
    let post = h.subrange((pre.len() + m.len()) as int, h.len() as int);
    assert(h =~= pre + m + post);
    assert((pre + m).subrange(pre.len() as int, (pre.len() + m.len()) as int) =~= m);
    lemma_occurs_prefix(pre + m, post, m, pre.len() as int);
    lemma_occurs_prefix(h, proof_server_section(r.proof_server), m, pre.len() as int);
    lemma_occurs_prefix(
        h + proof_server_section(r.proof_server),
        docker_section(r.docker),
        m,
        pre.len() as int,
    );
    lemma_kept_in_rendered(r, m, pre.len() as int);
}

proof fn lemma_status_row(r: MidnightReport)
    ensures
        occurs_at(rendered(r), status_row(r.proof_server), status_row_at(r)),
        status_row_at(r) + status_row(r.proof_server).len() == header_section(r).len()
            + proof_server_section(r.proof_server).len(),
{
    let h = header_section(r);
    let ps = proof_server_section(r.proof_server);
    let sr = status_row(r.proof_server);
    let pre = "\nproof server\n"@ + "  prove url           "@ + r.proof_server.prove_url@ + "  ("@
        + r.proof_server.url_source@ + ")\n"@ + "  locality            "@
        + r.proof_server.locality@ + "\n"@;
    assert(ps =~= pre + sr);
    assert(ps.subrange(pre.len() as int, ps.len() as int) =~= sr);
    lemma_occurs_shift(h, ps, sr, pre.len() as int);
    lemma_occurs_prefix(h + ps, docker_section(r.docker), sr, status_row_at(r));
    lemma_kept_in_rendered(r, sr, status_row_at(r));
}

proof fn lemma_container_rows(r: MidnightReport)
    ensures
        forall|i: int|
            0 <= i < strs(r.docker.proof_server_containers@).len() ==> {
                &&& occurs_at(
                    rendered(r),
                    container_row(strs(r.docker.proof_server_containers@)[i]),
                    #[trigger] container_row_at(r, i),
                )
                &&& container_row_at(r, i) + container_row(
                    strs(r.docker.proof_server_containers@)[i],
                ).len() == container_row_at(r, i + 1)
            },
        header_section(r).len() + proof_server_section(r.proof_server).len() <= container_row_at(
            r,
            0,
        ),
        container_row_at(r, strs(r.docker.proof_server_containers@).len() as int)
            <= through_docker(r).len(),
{
    let d = r.docker;
    let cs = strs(d.proof_server_containers@);
    let p2 = header_section(r) + proof_server_section(r.proof_server);
    let ds = docker_section(d);
    let dh = docker_head(d);
    let cb = container_block(cs);
    let dt = "  "@ + d.note@ + "\n"@;
    assert(ds =~= (dh + cb) + dt);
    assert(cs.take(0) =~= Seq::<Seq<char>>::empty());
    assert(cs.take(cs.len() as int) =~= cs);
    assert forall|i: int| 0 <= i < cs.len() implies {
        &&& occurs_at(rendered(r), container_row(cs[i]), #[trigger] container_row_at(r, i))
        &&& container_row_at(r, i) + container_row(cs[i]).len() == container_row_at(r, i + 1)
    } by {
        let row = container_row(cs[i]);
        let q = container_block(cs.take(i)).len() as int;
        lemma_row_in_rows("  container           "@, cs, i);
        lemma_occurs_shift(dh, cb, row, q);
        lemma_occurs_prefix(dh + cb, dt, row, dh.len() + q);
        lemma_occurs_shift(p2, ds, row, dh.len() + q);
        lemma_kept_in_rendered(r, row, container_row_at(r, i));
    }
}

proof fn lemma_note_rows(r: MidnightReport)
    ensures
        forall|i: int|
            0 <= i < strs(r.notes@).len() ==> {
                &&& occurs_at(rendered(r), note_row(strs(r.notes@)[i]), #[trigger] note_row_at(r, i))
                &&& note_row_at(r, i) + note_row(strs(r.notes@)[i]).len() == note_row_at(r, i + 1)
            },
{
    let ns = strs(r.notes@);
    let b = before_notes(r);
    let nb = notes_block(ns);
    lemma_rendered_shape(r);
    assert forall|i: int| 0 <= i < ns.len() implies {
        &&& occurs_at(rendered(r), note_row(ns[i]), #[trigger] note_row_at(r, i))
        &&& note_row_at(r, i) + note_row(ns[i]).len() == note_row_at(r, i + 1)
    } by {
        let row = note_row(ns[i]);
        let q = notes_block(ns.take(i)).len() as int;
        lemma_row_in_rows("  - "@, ns, i);
        lemma_occurs_shift(b, nb, row, q);
    }
}

/// The rendering of a Midnight report opens with its title, ends with a line
/// feed, and holds, in this order and without overlap: the Metal-lane row with
/// its `[N/A]` badge, the proof-server status row (badge and summary), one row
/// per proof-server container, and one row per note.
pub proof fn law_rendered_lines_in_order(r: MidnightReport)
    ensures
        ({
            let t = rendered(r);
            let cs = strs(r.docker.proof_server_containers@);
            let ns = strs(r.notes@);
            &&& starts_with(t, "midnight proving target\n"@)
            &&& t.len() > 0 && t.last() == '\n'
            &&& occurs_at(t, metal_row(r), metal_row_at(r))
            &&& metal_row_at(r) + metal_row(r).len() <= status_row_at(r)
            &&& occurs_at(t, status_row(r.proof_server), status_row_at(r))
            &&& status_row_at(r) + status_row(r.proof_server).len() <= container_row_at(r, 0)
            &&& forall|i: int|
                0 <= i < cs.len() ==> {
                    &&& occurs_at(t, container_row(cs[i]), #[trigger] container_row_at(r, i))
                    &&& container_row_at(r, i) + container_row(cs[i]).len() == container_row_at(
                        r,
                        i + 1,
                    )
                }
            &&& container_row_at(r, cs.len() as int) <= note_row_at(r, 0)
            &&& forall|i: int|
                0 <= i < ns.len() ==> {
                    &&& occurs_at(t, note_row(ns[i]), #[trigger] note_row_at(r, i))
                    &&& note_row_at(r, i) + note_row(ns[i]).len() == note_row_at(r, i + 1)
                }
        }),
{
    lemma_title_and_end(r);
    lemma_metal_row(r);
    lemma_status_row(r);
    lemma_container_rows(r);
    lemma_note_rows(r);
    lemma_rendered_shape(r);
}

} // verus!
