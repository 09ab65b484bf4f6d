//! Cleaning captured text for safe, readable reports.
//!
//! Two concerns, both applied before anything is serialized or shared:
//! - [`strip_ansi`] removes terminal escape sequences so matched lines and
//!   logs are plain text a human (or a JSON consumer) can read.
//! - [`redact`] collapses host-identifying details — the user's home directory
//!   and account name — so a pasted evidence bundle never leaks the local
//!   filesystem layout or username.
use crate::text::{
    chars_of, contains, occurs_at, occurs_at_exec, replace_all, replace_chars, string_of,
};
use vstd::prelude::*;
use vstd::utf8::encode_utf8;

verus! {

/// What `strip_ansi_escapes::strip_str` returns for a text: the text with its
/// ANSI escape sequences removed, as the crate's VTE parser decides them.
pub uninterp spec fn spec_strip_ansi(s: Seq<char>) -> Seq<char>;

/// Remove ANSI escape sequences from a captured log line.
///
/// Calls `strip_ansi_escapes::strip_str`; the contract claims only that the
/// result is that function of the input text (same input, same output).
#[verifier::external_body]
pub fn strip_ansi(s: &str) -> (r: String)
    ensures
        r@ == spec_strip_ansi(s@),
{
    strip_ansi_escapes::strip_str(s)
}

/// The host-identifying facts that redaction removes: the home directory and
/// the account name, as the environment reports them (absent when unset).
#[derive(Debug, Clone)]
pub struct HostIdentity {
    pub home: Option<String>,
    pub user: Option<String>,
}

/// A character that continues a word: ASCII alphanumeric, `_` or `-`.
pub open spec fn is_word_char(c: char) -> bool {
    ||| ('a' <= c && c <= 'z')
    ||| ('A' <= c && c <= 'Z')
    ||| ('0' <= c && c <= '9')
    ||| c == '_'
    ||| c == '-'
}

/// `n` occurs in `h` at `i` as a whole token: not flanked by word characters.
pub open spec fn whole_word_at(h: Seq<char>, n: Seq<char>, i: int) -> bool {
    &&& n.len() > 0
    &&& occurs_at(h, n, i)
    &&& (i == 0 || !is_word_char(h[i - 1]))
    &&& (i + n.len() >= h.len() || !is_word_char(h[i + n.len()]))
}

/// The text of `h` from index `i` on, with each whole-token `n` (scanning from
/// the left) replaced by `w`.
pub open spec fn whole_words_from(h: Seq<char>, n: Seq<char>, w: Seq<char>, i: int) -> Seq<char>
    decreases h.len() - i,
{
    if i < 0 || i >= h.len() {
        seq![]
    } else if whole_word_at(h, n, i) {
        w + whole_words_from(h, n, w, i + n.len())
    } else {
        seq![h[i]] + whole_words_from(h, n, w, i + 1)
    }
}

/// `h` with every whole-token occurrence of `n` replaced by `w`.
pub open spec fn replaced_whole_words(h: Seq<char>, n: Seq<char>, w: Seq<char>) -> Seq<char> {
    if n.len() == 0 {
        h
    } else {
        whole_words_from(h, n, w, 0)
    }
}

fn is_word_char_exec(c: char) -> (r: bool)
    ensures
        r == is_word_char(c),
{
    ('a' <= c && c <= 'z') || ('A' <= c && c <= 'Z') || ('0' <= c && c <= '9') || c == '_' || c
        == '-'
}

/// Replace `needle` with `with`, but only where `needle` is a whole token (not
/// flanked by alphanumerics, `_`, or `-`). Prevents a short username from
/// mangling unrelated substrings (e.g. user "sic" inside "basic").
pub fn replace_whole_word(haystack: &str, needle: &str, with: &str) -> (r: String)
    ensures
        r@ == replaced_whole_words(haystack@, needle@, with@),
{
    let h = chars_of(haystack);
    let n = chars_of(needle);
    let w = chars_of(with);
    if n.len() == 0 {
        return string_of(&h);
    }
    let mut out: Vec<char> = Vec::new();
    let mut i: usize = 0;
    while i < h.len()
        invariant
            i <= h.len(),
            n@.len() > 0,
            whole_words_from(h@, n@, w@, 0) == out@ + whole_words_from(h@, n@, w@, i as int),
        decreases h.len() - i,
    {
        let hit = occurs_at_exec(&h, &n, i) && (i == 0 || !is_word_char_exec(h[i - 1])) && (i
            + n.len() >= h.len() || !is_word_char_exec(h[i + n.len()]));
        if hit {
            let ghost before = out@;
            let mut j: usize = 0;
            while j < w.len()
                invariant
                    j <= w.len(),
                    out@ == before + w@.take(j as int),
                decreases w.len() - j,
            {
                out.push(w[j]);
                assert(w@.take(j + 1) =~= w@.take(j as int).push(w@[j as int]));
                j = j + 1;
            }
            assert(w@.take(w.len() as int) =~= w@);
            assert(before + (w@ + whole_words_from(h@, n@, w@, i + n.len())) =~= out@
                + whole_words_from(h@, n@, w@, i + n.len()));
            i = i + n.len();
        } else {
            let ghost before = out@;
            out.push(h[i]);
            assert(before + (seq![h@[i as int]] + whole_words_from(h@, n@, w@, i + 1)) =~= out@
                + whole_words_from(h@, n@, w@, i + 1));
            i = i + 1;
        }
    }
    assert(whole_words_from(h@, n@, w@, i as int) =~= Seq::<char>::empty());
    assert(out@ + Seq::<char>::empty() =~= out@);
    string_of(&out)
}

/// What `redact` makes of `s` for the host identity `host`.
pub open spec fn redacted(s: Seq<char>, host: HostIdentity) -> Seq<char> {
    let a = match host.home {
        Some(h) => if h@.len() > 0 {
            replace_all(s, h@, "~"@)
        } else {
            s
        },
        None => s,
    };
    match host.user {
        Some(u) => if encode_utf8(u@).len() as usize >= 3 {
            replaced_whole_words(
                replace_all(replace_all(a, "/Users/"@ + u@, "~"@), "/home/"@ + u@, "~"@),
                u@,
                "<user>"@,
            )
        } else {
            a
        },
        None => a,
    }
}

/// `s` with every occurrence of the literal-free needle `n` replaced by `w`.
fn replace_str(s: &str, n: &Vec<char>, w: &str) -> (r: String)
    requires
        n.len() > 0,
    ensures
        r@ == replace_all(s@, n@, w@),
{
    let sv = chars_of(s);
    let wv = chars_of(w);
    string_of(&replace_chars(&sv, n, &wv))
}

/// Redact host-identifying details from a string for shareable output.
///
/// The user's home directory (and the generic `/Users/<name>` / `/home/<name>`
/// roots) collapse to `~`, and the bare username — only where it appears as a
/// whole word, and only when it is at least three bytes long — becomes
/// `<user>`. The identity is the caller's reading of `$HOME` and `$USER`.
pub fn redact(s: &str, host: &HostIdentity) -> (r: String)
    ensures
        r@ == redacted(s@, *host),
{
    let mut out = string_of(&chars_of(s));
    match &host.home {
        Some(h) => {
            let hv = chars_of(h.as_str());
            if hv.len() > 0 {
                out = replace_str(out.as_str(), &hv, "~");
            }
        },
        None => {},
    }
    let ghost a = out@;
    assert(a == match host.home {
        Some(h) => if h@.len() > 0 {
            replace_all(s@, h@, "~"@)
        } else {
            s@
        },
        None => s@,
    });
    match &host.user {
        Some(u) => {
            let ulen = u.as_str().len();
            assert(ulen == encode_utf8(u@).len() as usize);
            if ulen >= 3 {
                let uv = chars_of(u.as_str());
                let mut users = chars_of("/Users/");
                let mut homes = chars_of("/home/");
                let mut k: usize = 0;
                let ghost u0 = users@;
                let ghost h0 = homes@;
                while k < uv.len()
                    invariant
                        k <= uv.len(),
                        users@ == u0 + uv@.take(k as int),
                        homes@ == h0 + uv@.take(k as int),
                    decreases uv.len() - k,
                {
                    users.push(uv[k]);
                    homes.push(uv[k]);
                    assert(uv@.take(k + 1) =~= uv@.take(k as int).push(uv@[k as int]));
                    k = k + 1;
                }
                assert(uv@.take(uv.len() as int) =~= uv@);
                out = replace_str(out.as_str(), &users, "~");
                out = replace_str(out.as_str(), &homes, "~");
                out = replace_whole_word(out.as_str(), u.as_str(), "<user>");
            }
        },
        None => {},
    }
    out
}

// ---------------------------------------------------------------- laws

/// `x` cannot overlap an inserted `w` without matching one of `w`'s two end
/// characters: it holds neither, and is too long to fit strictly inside `w`.
pub open spec fn avoids(x: Seq<char>, w: Seq<char>) -> bool {
    &&& w.len() > 0
    &&& x.len() + 2 > w.len()
    &&& forall|i: int| 0 <= i < x.len() ==> #[trigger] x[i] != w[0] && x[i] != w[w.len() - 1]
}

proof fn lemma_not_contains_skip(s: Seq<char>, x: Seq<char>, k: int)
    requires
        0 <= k <= s.len(),
        !contains(s, x),
    ensures
        !contains(s.skip(k), x),
{
    if contains(s.skip(k), x) {
        let p = choose|p: int| occurs_at(s.skip(k), x, p);
        assert(s.skip(k).subrange(p, p + x.len()) =~= s.subrange(p + k, p + k + x.len()));
        assert(occurs_at(s, x, p + k));
    }
}

/// An occurrence of `x` in `w + r` either starts inside `w` (impossible when
/// `x` avoids `w`) or is an occurrence in `r`.
proof fn lemma_occurrence_after_insert(w: Seq<char>, r: Seq<char>, x: Seq<char>)
    requires
        x.len() > 0,
        avoids(x, w),
        !contains(r, x),
    ensures
        !contains(w + r, x),
{
    if contains(w + r, x) {
        let p = choose|p: int| occurs_at(w + r, x, p);
        let o = w + r;
        assert(o.subrange(p, p + x.len())[0] == x[0]);
        if p >= w.len() {
            assert(o.subrange(p, p + x.len()) =~= r.subrange(p - w.len(), p - w.len() + x.len()));
            assert(occurs_at(r, x, p - w.len()));
        } else if p + x.len() >= w.len() {
            let k = w.len() - 1 - p;
            assert(o.subrange(p, p + x.len())[k] == x[k]);
            assert(o[w.len() - 1] == w[w.len() - 1]);
        } else {
            assert(o[p] == w[p]);
            assert(p != 0);
        }
    }
}

/// A prefix of `replace_all(t, n, w)` is either untouched text of `t` or holds
/// the first character of an inserted `w`.
proof fn lemma_replace_prefix(t: Seq<char>, n: Seq<char>, w: Seq<char>, m: int)
    requires
        n.len() > 0,
        w.len() > 0,
        0 <= m <= replace_all(t, n, w).len(),
    ensures
        (m <= t.len() && replace_all(t, n, w).take(m) == t.take(m)) || exists|j: int|
            0 <= j < m && #[trigger] replace_all(t, n, w)[j] == w[0],
    decreases t.len(),
{
    let r = replace_all(t, n, w);
    if t.len() < n.len() {
    } else if t.take(n.len() as int) == n {
        if m > 0 {
            assert(r[0] == w[0]);
        }
    } else {
        if m > 0 {
            let r2 = replace_all(t.drop_first(), n, w);
            assert(r == seq![t[0]] + r2);
            lemma_replace_prefix(t.drop_first(), n, w, m - 1);
            if m - 1 <= t.drop_first().len() && r2.take(m - 1) == t.drop_first().take(m - 1) {
                assert forall|k: int| 0 <= k < m implies r.take(m)[k] == t.take(m)[k] by {
                    if k > 0 {
                        assert(r2.take(m - 1)[k - 1] == t.drop_first().take(m - 1)[k - 1]);
                    }
                }
                assert(r.take(m) =~= t.take(m));
            } else {
                let j = choose|j: int| 0 <= j < m - 1 && #[trigger] r2[j] == w[0];
                assert(r[j + 1] == w[0]);
            }
        }
    }
}

/// Replacing by a `w` that `x` avoids creates no occurrence of `x`.
proof fn lemma_replace_keeps_absent(s: Seq<char>, n: Seq<char>, w: Seq<char>, x: Seq<char>)
    requires
        n.len() > 0,
        x.len() > 0,
        avoids(x, w),
        !contains(s, x),
    ensures
        !contains(replace_all(s, n, w), x),
    decreases s.len(),
{
    if s.len() < n.len() {
    } else if s.take(n.len() as int) == n {
        lemma_not_contains_skip(s, x, n.len() as int);
        lemma_replace_keeps_absent(s.skip(n.len() as int), n, w, x);
        lemma_occurrence_after_insert(w, replace_all(s.skip(n.len() as int), n, w), x);
    } else {
        let t = s.drop_first();
        let r2 = replace_all(t, n, w);
        let o = replace_all(s, n, w);
        assert(o == seq![s[0]] + r2);
        lemma_not_contains_skip(s, x, 1);
        assert(s.skip(1) =~= t);
        lemma_replace_keeps_absent(t, n, w, x);
        if contains(o, x) {
            let p = choose|p: int| occurs_at(o, x, p);
            if p >= 1 {
                assert(o.subrange(p, p + x.len()) =~= r2.subrange(p - 1, p - 1 + x.len()));
                assert(occurs_at(r2, x, p - 1));
            } else {
                lemma_replace_prefix(t, n, w, x.len() - 1);
                if x.len() - 1 <= t.len() && r2.take(x.len() - 1) == t.take(x.len() - 1) {
                    assert forall|k: int| 0 <= k < x.len() implies o.subrange(0, x.len() as int)[k]
                        == s.subrange(0, x.len() as int)[k] by {
                        if k > 0 {
                            assert(r2.take(x.len() - 1)[k - 1] == t.take(x.len() - 1)[k - 1]);
                        }
                    }
                    assert(o.subrange(0, x.len() as int) =~= s.subrange(0, x.len() as int));
                    assert(occurs_at(s, x, 0));
                } else {
                    let j = choose|j: int| 0 <= j < x.len() - 1 && #[trigger] r2[j] == w[0];
                    assert(o.subrange(0, x.len() as int)[j + 1] == x[j + 1]);
                    assert(o[j + 1] == r2[j]);
                }
            }
        }
    }
}

/// Replacing every `n` by a `w` that `n` avoids leaves no `n` behind.
proof fn lemma_replace_removes(s: Seq<char>, n: Seq<char>, w: Seq<char>)
    requires
        n.len() > 0,
        avoids(n, w),
    ensures
        !contains(replace_all(s, n, w), n),
    decreases s.len(),
{
    let o = replace_all(s, n, w);
    if s.len() < n.len() {
        if contains(o, n) {
            let p = choose|p: int| occurs_at(o, n, p);
        }
    } else if s.take(n.len() as int) == n {
        lemma_replace_removes(s.skip(n.len() as int), n, w);
        lemma_occurrence_after_insert(w, replace_all(s.skip(n.len() as int), n, w), n);
    } else {
        let t = s.drop_first();
        let r2 = replace_all(t, n, w);
        assert(o == seq![s[0]] + r2);
        lemma_replace_removes(t, n, w);
        if contains(o, n) {
            let p = choose|p: int| occurs_at(o, n, p);
            if p >= 1 {
                assert(o.subrange(p, p + n.len()) =~= r2.subrange(p - 1, p - 1 + n.len()));
                assert(occurs_at(r2, n, p - 1));
            } else {
                lemma_replace_prefix(t, n, w, n.len() - 1);
                if n.len() - 1 <= t.len() && r2.take(n.len() - 1) == t.take(n.len() - 1) {
                    assert forall|k: int| 0 <= k < n.len() implies o.subrange(0, n.len() as int)[k]
                        == s.take(n.len() as int)[k] by {
                        if k > 0 {
                            assert(r2.take(n.len() - 1)[k - 1] == t.take(n.len() - 1)[k - 1]);
                        }
                    }
                    assert(o.subrange(0, n.len() as int) =~= s.take(n.len() as int));
                } else {
                    let j = choose|j: int| 0 <= j < n.len() - 1 && #[trigger] r2[j] == w[0];
                    assert(o.subrange(0, n.len() as int)[j + 1] == n[j + 1]);
                    assert(o[j + 1] == r2[j]);
                }
            }
        }
    }
}

/// A prefix of `whole_words_from(h, n, w, i)` is either untouched text of `h`
/// from `i` or holds the first character of an inserted `w`.
proof fn lemma_whole_words_prefix(h: Seq<char>, n: Seq<char>, w: Seq<char>, i: int, m: int)
    requires
        0 <= i <= h.len(),
        w.len() > 0,
        0 <= m <= whole_words_from(h, n, w, i).len(),
    ensures
        (i + m <= h.len() && whole_words_from(h, n, w, i).take(m) == h.subrange(i, i + m))
            || exists|j: int| 0 <= j < m && #[trigger] whole_words_from(h, n, w, i)[j] == w[0],
    decreases h.len() - i,
{
    let r = whole_words_from(h, n, w, i);
    if i >= h.len() {
        assert(r.take(m) =~= h.subrange(i, i + m));
    } else if whole_word_at(h, n, i) {
        if m > 0 {
            assert(r[0] == w[0]);
        } else {
            assert(r.take(m) =~= h.subrange(i, i + m));
        }
    } else {
        if m > 0 {
            let r2 = whole_words_from(h, n, w, i + 1);
            assert(r == seq![h[i]] + r2);
            lemma_whole_words_prefix(h, n, w, i + 1, m - 1);
            if i + 1 + (m - 1) <= h.len() && r2.take(m - 1) == h.subrange(i + 1, i + m) {
                assert forall|k: int| 0 <= k < m implies r.take(m)[k] == h.subrange(i, i + m)[k] by {
                    if k > 0 {
                        assert(r2.take(m - 1)[k - 1] == h.subrange(i + 1, i + m)[k - 1]);
                    }
                }
                assert(r.take(m) =~= h.subrange(i, i + m));
            } else {
                let j = choose|j: int| 0 <= j < m - 1 && #[trigger] r2[j] == w[0];
                assert(r[j + 1] == w[0]);
            }
        } else {
            assert(r.take(m) =~= h.subrange(i, i + m));
        }
    }
}

/// Whole-word replacement by a `w` that `x` avoids creates no occurrence of `x`.
proof fn lemma_whole_words_keep_absent(h: Seq<char>, n: Seq<char>, w: Seq<char>, x: Seq<char>, i: int)
    requires
        0 <= i <= h.len(),
        x.len() > 0,
        avoids(x, w),
        !contains(h.skip(i), x),
    ensures
        !contains(whole_words_from(h, n, w, i), x),
    decreases h.len() - i,
{
    let o = whole_words_from(h, n, w, i);
    if i >= h.len() {
    } else if whole_word_at(h, n, i) {
        assert(h.skip(i).skip(n.len() as int) =~= h.skip(i + n.len()));
        lemma_not_contains_skip(h.skip(i), x, n.len() as int);
        lemma_whole_words_keep_absent(h, n, w, x, i + n.len());
        lemma_occurrence_after_insert(w, whole_words_from(h, n, w, i + n.len()), x);
    } else {
        let r2 = whole_words_from(h, n, w, i + 1);
        assert(o == seq![h[i]] + r2);
        assert(h.skip(i).skip(1) =~= h.skip(i + 1));
        lemma_not_contains_skip(h.skip(i), x, 1);
        lemma_whole_words_keep_absent(h, n, w, x, i + 1);
        if contains(o, x) {
            let p = choose|p: int| occurs_at(o, x, p);
            if p >= 1 {
                assert(o.subrange(p, p + x.len()) =~= r2.subrange(p - 1, p - 1 + x.len()));
                assert(occurs_at(r2, x, p - 1));
            } else {
                lemma_whole_words_prefix(h, n, w, i + 1, x.len() - 1);
                if i + 1 + (x.len() - 1) <= h.len() && r2.take(x.len() - 1) == h.subrange(
                    i + 1,
                    i + x.len(),
                ) {
                    assert forall|k: int| 0 <= k < x.len() implies o.subrange(0, x.len() as int)[k]
                        == h.skip(i).subrange(0, x.len() as int)[k] by {
                        if k > 0 {
                            assert(r2.take(x.len() - 1)[k - 1] == h.subrange(i + 1, i + x.len())[k
                                - 1]);
                        }
                    }
                    assert(o.subrange(0, x.len() as int) =~= h.skip(i).subrange(0, x.len() as int));
                    assert(occurs_at(h.skip(i), x, 0));
                } else {
                    let j = choose|j: int| 0 <= j < x.len() - 1 && #[trigger] r2[j] == w[0];
                    assert(o.subrange(0, x.len() as int)[j + 1] == x[j + 1]);
                    assert(o[j + 1] == r2[j]);
                }
            }
        }
    }
}

/// Redaction adds no text of its own: a text longer than four characters that
/// holds no `~`, `<` or `>` (for example `metal-observed`) is in the redacted
/// text only if it was in the text before.
pub proof fn law_redact_adds_no_text(s: Seq<char>, host: HostIdentity, x: Seq<char>)
    requires
        x.len() > 4,
        forall|i: int| 0 <= i < x.len() ==> {
            let c = #[trigger] x[i];
            c != '~' && c != '<' && c != '>'
        },
        !contains(s, x),
    ensures
        !contains(redacted(s, host), x),
{
    reveal_strlit("~");
    reveal_strlit("<user>");
    let tilde = "~"@;
    assert(avoids(x, tilde));
    let a = match host.home {
        Some(hm) => if hm@.len() > 0 {
            lemma_replace_keeps_absent(s, hm@, tilde, x);
            replace_all(s, hm@, tilde)
        } else {
            s
        },
        None => s,
    };
    match host.user {
        Some(u) => {
            if encode_utf8(u@).len() as usize >= 3 {
                let n1 = "/Users/"@ + u@;
                let n2 = "/home/"@ + u@;
                reveal_strlit("/Users/");
                reveal_strlit("/home/");
                lemma_replace_keeps_absent(a, n1, tilde, x);
                let b = replace_all(a, n1, tilde);
                lemma_replace_keeps_absent(b, n2, tilde, x);
                let c = replace_all(b, n2, tilde);
                let w = "<user>"@;
                assert(avoids(x, w));
                if u@.len() > 0 {
                    assert(c.skip(0) =~= c);
                    lemma_whole_words_keep_absent(c, u@, w, x, 0);
                }
            }
        },
        None => {},
    }
}

/// Redaction leaves no trace of the home path: with a home path longer than
/// four characters that holds no `~`, `<` or `>`, the redacted text contains
/// no occurrence of it, whatever the text and the user name.
pub proof fn law_redact_removes_home(s: Seq<char>, host: HostIdentity)
    requires
        host.home is Some,
        host.home.unwrap()@.len() > 4,
        forall|i: int|
            0 <= i < host.home.unwrap()@.len() ==> {
                let c = #[trigger] host.home.unwrap()@[i];
                c != '~' && c != '<' && c != '>'
            },
    ensures
        !contains(redacted(s, host), host.home.unwrap()@),
{
    reveal_strlit("~");
    reveal_strlit("<user>");
    let h = host.home.unwrap()@;
    let tilde = "~"@;
    let a = replace_all(s, h, tilde);
    assert(avoids(h, tilde));
    lemma_replace_removes(s, h, tilde);
    match host.user {
        Some(u) => {
            if encode_utf8(u@).len() as usize >= 3 {
                let n1 = "/Users/"@ + u@;
                let n2 = "/home/"@ + u@;
                reveal_strlit("/Users/");
                reveal_strlit("/home/");
                lemma_replace_keeps_absent(a, n1, tilde, h);
                let b = replace_all(a, n1, tilde);
                lemma_replace_keeps_absent(b, n2, tilde, h);
                let c = replace_all(b, n2, tilde);
                let w = "<user>"@;
                assert(avoids(h, w));
                if u@.len() > 0 {
                    assert(c.skip(0) =~= c);
                    lemma_whole_words_keep_absent(c, u@, w, h, 0);
                }
            }
        },
        None => {},
    }
}

/// `n` at `k` in `o`, not followed by a word character.
pub open spec fn right_flanked(o: Seq<char>, n: Seq<char>, k: int) -> bool {
    &&& occurs_at(o, n, k)
    &&& (k + n.len() >= o.len() || !is_word_char(o[k + n.len()]))
}

/// A token `n` made of word characters, and a replacement `w` that starts and
/// ends with a non-word character and holds no `n`.
pub open spec fn token_safe(n: Seq<char>, w: Seq<char>) -> bool {
    &&& n.len() > 0
    &&& forall|i: int| 0 <= i < n.len() ==> is_word_char(#[trigger] n[i])
    &&& w.len() > 0
    &&& !is_word_char(w[0])
    &&& !is_word_char(w[w.len() - 1])
    &&& !contains(w, n)
}

/// When the output from `i` starts with the token but `i` is no whole-token
/// match, the scan keeps the token's characters one by one.
proof fn lemma_kept_run(h: Seq<char>, n: Seq<char>, w: Seq<char>, i: int, t: int)
    requires
        0 <= i <= h.len(),
        0 <= t <= n.len(),
        token_safe(n, w),
        occurs_at(whole_words_from(h, n, w, i), n, 0),
        !whole_word_at(h, n, i),
    ensures
        i + t <= h.len(),
        whole_words_from(h, n, w, i) == h.subrange(i, i + t) + whole_words_from(h, n, w, i + t),
    decreases t,
{
    let o = whole_words_from(h, n, w, i);
    if t == 0 {
        assert(h.subrange(i, i) =~= Seq::<char>::empty());
        assert(o =~= h.subrange(i, i) + o);
    } else {
        lemma_kept_run(h, n, w, i, t - 1);
        let p = i + t - 1;
        let op = whole_words_from(h, n, w, p);
        if p >= h.len() {
            assert(op.len() == 0);
            assert(o.len() == t - 1);
        }
        if t - 1 > 0 {
            assert(o[t - 2] == h.subrange(i, p)[t - 2]);
            assert(o.subrange(0, n.len() as int)[t - 2] == o[t - 2]);
            assert(is_word_char(n[t - 2]));
            assert(!whole_word_at(h, n, p));
        }
        let rest = whole_words_from(h, n, w, p + 1);
        assert(op == seq![h[p]] + rest);
        assert(h.subrange(i, p) + (seq![h[p]] + rest) =~= h.subrange(i, p + 1) + rest);
    }
}

/// Every right-flanked token left in the output from `i` has a word
/// character just before it: inside the output, or (at its very start) the
/// input character before `i`.
proof fn lemma_no_token_left(h: Seq<char>, n: Seq<char>, w: Seq<char>, i: int)
    requires
        0 <= i <= h.len(),
        token_safe(n, w),
    ensures
        forall|k: int|
            #[trigger] right_flanked(whole_words_from(h, n, w, i), n, k) ==> (k >= 1 && is_word_char(
                whole_words_from(h, n, w, i)[k - 1],
            )) || (k == 0 && i >= 1 && is_word_char(h[i - 1])),
    decreases h.len() - i,
{
    let o = whole_words_from(h, n, w, i);
    if i >= h.len() {
        assert forall|k: int| right_flanked(o, n, k) implies (k >= 1 && is_word_char(o[k - 1])) || (
        k == 0 && i >= 1 && is_word_char(h[i - 1])) by {
            assert(o.len() == 0);
        }
    } else if whole_word_at(h, n, i) {
        let j = i + n.len();
        let o2 = whole_words_from(h, n, w, j);
        lemma_no_token_left(h, n, w, j);
        assert(o == w + o2);
        assert forall|k: int| right_flanked(o, n, k) implies (k >= 1 && is_word_char(o[k - 1])) || (
        k == 0 && i >= 1 && is_word_char(h[i - 1])) by {
            if k >= w.len() {
                let k2 = k - w.len();
                assert(o.subrange(k, k + n.len()) =~= o2.subrange(k2, k2 + n.len()));
                if k + n.len() < o.len() {
                    assert(o[k + n.len()] == o2[k2 + n.len()]);
                }
                assert(right_flanked(o2, n, k2));
                if k2 >= 1 {
                    assert(o[k - 1] == o2[k2 - 1]);
                } else {
                    assert(o2[0] == o2.subrange(0, n.len() as int)[0]);
                    assert(is_word_char(n[0]));
                    if whole_word_at(h, n, j) {
                        assert(o2[0] == w[0]);
                    } else {
                        assert(o2 == seq![h[j]] + whole_words_from(h, n, w, j + 1));
                        assert(o2[0] == h[j]);
                    }
                }
            } else if k + n.len() <= w.len() {
                assert(w.subrange(k, k + n.len()) =~= o.subrange(k, k + n.len()));
                assert(occurs_at(w, n, k));
            } else {
                let t = w.len() - 1 - k;
                assert(o.subrange(k, k + n.len())[t] == n[t]);
                assert(is_word_char(n[t]));
                assert(o[w.len() - 1] == w[w.len() - 1]);
            }
        }
    } else {
        let o2 = whole_words_from(h, n, w, i + 1);
        lemma_no_token_left(h, n, w, i + 1);
        assert(o == seq![h[i]] + o2);
        assert forall|k: int| right_flanked(o, n, k) implies (k >= 1 && is_word_char(o[k - 1])) || (
        k == 0 && i >= 1 && is_word_char(h[i - 1])) by {
            if k >= 1 {
                let k2 = k - 1;
                assert(o.subrange(k, k + n.len()) =~= o2.subrange(k2, k2 + n.len()));
                if k + n.len() < o.len() {
                    assert(o[k + n.len()] == o2[k2 + n.len()]);
                }
                assert(right_flanked(o2, n, k2));
                if k2 >= 1 {
                    assert(o[k - 1] == o2[k2 - 1]);
                } else {
                    assert(o[0] == h[i]);
                }
            } else {
                lemma_kept_run(h, n, w, i, n.len() as int);
                let j = i + n.len();
                let oj = whole_words_from(h, n, w, j);
                assert(o == h.subrange(i, j) + oj);
                assert(h.subrange(i, j) =~= o.subrange(0, n.len() as int));
                assert(occurs_at(h, n, i));
                if j < h.len() {
                    assert(h[j - 1] == o.subrange(0, n.len() as int)[n.len() - 1]);
                    assert(is_word_char(n[n.len() - 1]));
                    assert(!whole_word_at(h, n, j));
                    assert(oj == seq![h[j]] + whole_words_from(h, n, w, j + 1));
                    assert(o.len() > n.len());
                    assert(o[n.len() as int] == h[j]);
                    assert(!is_word_char(h[j]));
                }
                assert(i + n.len() >= h.len() || !is_word_char(h[i + n.len()]));
                assert(!(i == 0 || !is_word_char(h[i - 1])));
            }
        }
    }
}

/// Whole-token replacement leaves no whole token behind, when the token is
/// made of word characters and the replacement starts and ends with a
/// non-word character and holds no token.
pub proof fn law_whole_words_leave_no_token(h: Seq<char>, n: Seq<char>, w: Seq<char>)
    requires
        token_safe(n, w),
    ensures
        forall|k: int| !whole_word_at(replaced_whole_words(h, n, w), n, k),
{
    lemma_no_token_left(h, n, w, 0);
    let o = replaced_whole_words(h, n, w);
    assert forall|k: int| !whole_word_at(o, n, k) by {
        if whole_word_at(o, n, k) {
            assert(right_flanked(o, n, k));
        }
    }
}

/// Redaction leaves no whole-token user name: with a user name of at least
/// three bytes, made of word characters and not found in `<user>`, the
/// redacted text holds it nowhere as a whole token.
pub proof fn law_redact_hides_user(s: Seq<char>, host: HostIdentity)
    requires
        host.user is Some,
        encode_utf8(host.user.unwrap()@).len() as usize >= 3,
        forall|i: int|
            0 <= i < host.user.unwrap()@.len() ==> is_word_char(#[trigger] host.user.unwrap()@[i]),
        !contains("<user>"@, host.user.unwrap()@),
    ensures
        forall|k: int| !whole_word_at(redacted(s, host), host.user.unwrap()@, k),
{
    reveal_strlit("<user>");
    let u = host.user.unwrap()@;
    if u.len() == 0 {
        assert(encode_utf8(u) =~= Seq::<u8>::empty());
    }
    let w = "<user>"@;
    assert(!is_word_char(w[0]) && !is_word_char(w[w.len() - 1]));
    let a = match host.home {
        Some(hm) => if hm@.len() > 0 {
            replace_all(s, hm@, "~"@)
        } else {
            s
        },
        None => s,
    };
    let c = replace_all(replace_all(a, "/Users/"@ + u, "~"@), "/home/"@ + u, "~"@);
    law_whole_words_leave_no_token(c, u, w);
}

proof fn lemma_whole_words_identity(h: Seq<char>, n: Seq<char>, w: Seq<char>, i: int)
    requires
        0 <= i <= h.len(),
        forall|k: int| 0 <= k < h.len() ==> !whole_word_at(h, n, k),
    ensures
        whole_words_from(h, n, w, i) == h.skip(i),
    decreases h.len() - i,
{
    if i < h.len() {
        lemma_whole_words_identity(h, n, w, i + 1);
        assert(h.skip(i) =~= seq![h[i]] + h.skip(i + 1));
    } else {
        assert(h.skip(i) =~= Seq::<char>::empty());
    }
}

/// Whole-word replacement never mangles a substring: where the needle never
/// stands as a whole token (e.g. user `sic` inside `basic`), the text is
/// returned unchanged.
pub proof fn law_whole_word_only(h: Seq<char>, n: Seq<char>, w: Seq<char>)
    requires
        forall|k: int| 0 <= k < h.len() ==> !whole_word_at(h, n, k),
    ensures
        replaced_whole_words(h, n, w) == h,
{
    if n.len() > 0 {
        lemma_whole_words_identity(h, n, w, 0);
        assert(h.skip(0) =~= h);
    }
}

/// Whole tokens are delimited by ASCII letters, digits, `_` and `-` and by
/// nothing else: an occurrence of a non-empty needle is a whole token exactly
/// when neither neighbour is such a character. So `alice` inside `alice2`,
/// `2alice`, `alice_x` or `x-alice` is never a whole token, while `alice`
/// next to a space, `/`, `.` or a non-ASCII letter is.
pub proof fn law_whole_token_boundaries(h: Seq<char>, n: Seq<char>, i: int)
    requires
        n.len() > 0,
    ensures
        whole_word_at(h, n, i) <==> {
            &&& occurs_at(h, n, i)
            &&& (i == 0 || !(('0' <= h[i - 1] && h[i - 1] <= '9') || ('a' <= h[i - 1] && h[i - 1]
                <= 'z') || ('A' <= h[i - 1] && h[i - 1] <= 'Z') || h[i - 1] == '_' || h[i - 1]
                == '-'))
            &&& (i + n.len() >= h.len() || !(('0' <= h[i + n.len()] && h[i + n.len()] <= '9') || (
            'a' <= h[i + n.len()] && h[i + n.len()] <= 'z') || ('A' <= h[i + n.len()] && h[i
                + n.len()] <= 'Z') || h[i + n.len()] == '_' || h[i + n.len()] == '-'))
        },
{
}

/// A needle whose every occurrence touches an ASCII letter, digit, `_` or `-`
/// is left alone: whole-token replacement returns the text unchanged.
pub proof fn law_flanked_needle_is_kept(h: Seq<char>, n: Seq<char>, w: Seq<char>)
    requires
        n.len() > 0,
        forall|k: int|
            #![trigger occurs_at(h, n, k)]
            occurs_at(h, n, k) ==> (k > 0 && (('0' <= h[k - 1] && h[k - 1] <= '9') || ('a' <= h[k
                - 1] && h[k - 1] <= 'z') || ('A' <= h[k - 1] && h[k - 1] <= 'Z') || h[k - 1] == '_'
                || h[k - 1] == '-')) || (k + n.len() < h.len() && (('0' <= h[k + n.len()] && h[k
                + n.len()] <= '9') || ('a' <= h[k + n.len()] && h[k + n.len()] <= 'z') || ('A'
                <= h[k + n.len()] && h[k + n.len()] <= 'Z') || h[k + n.len()] == '_' || h[k
                + n.len()] == '-')),
    ensures
        replaced_whole_words(h, n, w) == h,
{
    assert forall|k: int| 0 <= k < h.len() implies !whole_word_at(h, n, k) by {
        if whole_word_at(h, n, k) {
            assert(occurs_at(h, n, k));
        }
    }
    law_whole_word_only(h, n, w);
}

} // verus!
