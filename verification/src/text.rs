//! Plain-text primitives over character sequences, each with its contract.
//!
//! Strings are modelled by their `Seq<char>` view. The spec functions here say
//! what the usual string operations mean (trimming, line splitting, substring
//! search, replacement); the executable functions are proved against them.
use vstd::prelude::*;

verus! {

broadcast use vstd::string::group_string_axioms;

// ---------------------------------------------------------------- specs

/// Unicode `White_Space`, the property that `char::is_whitespace` tests.
pub open spec fn is_ws(c: char) -> bool {
    ||| ('\t' <= c && c <= '\r')
    ||| c == ' '
    ||| c == '\u{85}'
    ||| c == '\u{a0}'
    ||| c == '\u{1680}'
    ||| ('\u{2000}' <= c && c <= '\u{200a}')
    ||| c == '\u{2028}'
    ||| c == '\u{2029}'
    ||| c == '\u{202f}'
    ||| c == '\u{205f}'
    ||| c == '\u{3000}'
}

/// ASCII lower-casing of one character; every other character is kept.
pub open spec fn lower_char(c: char) -> char {
    if 'A' <= c && c <= 'Z' {
        ((c as u32) + 32) as char
    } else {
        c
    }
}

pub open spec fn lower(s: Seq<char>) -> Seq<char> {
    s.map_values(|c: char| lower_char(c))
}

pub open spec fn is_ascii_digit(c: char) -> bool {
    '0' <= c && c <= '9'
}

/// `n` occurs in `s` starting at index `i`.
pub open spec fn occurs_at(s: Seq<char>, n: Seq<char>, i: int) -> bool {
    0 <= i && i + n.len() <= s.len() && s.subrange(i, i + n.len()) == n
}

pub open spec fn contains(s: Seq<char>, n: Seq<char>) -> bool {
    exists|i: int| occurs_at(s, n, i)
}

pub open spec fn starts_with(s: Seq<char>, p: Seq<char>) -> bool {
    occurs_at(s, p, 0)
}

/// `s` ends with `p`.
pub open spec fn ends_with(s: Seq<char>, p: Seq<char>) -> bool {
    occurs_at(s, p, s.len() - p.len())
}

/// `s` with its leading whitespace removed.
pub open spec fn trim_start(s: Seq<char>) -> Seq<char>
    decreases s.len(),
{
    if s.len() > 0 && is_ws(s[0]) {
        trim_start(s.drop_first())
    } else {
        s
    }
}

/// `s` with its trailing whitespace removed.
pub open spec fn trim_end(s: Seq<char>) -> Seq<char>
    decreases s.len(),
{
    if s.len() > 0 && is_ws(s.last()) {
        trim_end(s.drop_last())
    } else {
        s
    }
}

/// `s` with whitespace removed at both ends.
pub open spec fn trim(s: Seq<char>) -> Seq<char> {
    trim_end(trim_start(s))
}

/// Index of the first `c` in `s`, or `s.len()` when there is none.
pub open spec fn find_char(s: Seq<char>, c: char) -> nat
    decreases s.len(),
{
    if s.len() == 0 {
        0
    } else if s[0] == c {
        0
    } else {
        1 + find_char(s.drop_first(), c)
    }
}

/// A line without its terminator: a trailing `'\r'` is dropped.
pub open spec fn strip_cr(line: Seq<char>) -> Seq<char> {
    if line.len() > 0 && line.last() == '\r' {
        line.drop_last()
    } else {
        line
    }
}

/// The lines of `s`: split at each `'\n'`, a `"\r\n"` counting as one line
/// end; a final line end adds no empty line, and the empty text has no lines.
pub open spec fn lines(s: Seq<char>) -> Seq<Seq<char>>
    decreases s.len(),
{
    if s.len() == 0 {
        seq![]
    } else {
        let k = find_char(s, '\n');
        if k >= s.len() {
            seq![s]
        } else {
            seq![strip_cr(s.take(k as int))] + lines(s.skip(k + 1 as int))
        }
    }
}

/// Length of the leading run of characters of `s` that are not whitespace.
pub open spec fn word_len(s: Seq<char>) -> nat
    decreases s.len(),
{
    if s.len() == 0 || is_ws(s[0]) {
        0
    } else {
        1 + word_len(s.drop_first())
    }
}

/// The maximal runs of non-whitespace characters of `s`, in order.
pub open spec fn words(s: Seq<char>) -> Seq<Seq<char>>
    decreases s.len(),
{
    let t = trim_start(s);
    if t.len() == 0 {
        seq![]
    } else {
        let k = word_len(t);
        proof {
            lemma_trim_start_shape(s);
            lemma_word_len_bound(t);
        }
        seq![t.take(k as int)] + words(t.skip(k as int))
    }
}

/// Every non-overlapping occurrence of `n` in `s`, taken from the left,
/// replaced by `w`. (`n` is not empty where this is used.)
pub open spec fn replace_all(s: Seq<char>, n: Seq<char>, w: Seq<char>) -> Seq<char>
    decreases s.len(),
{
    if n.len() == 0 || s.len() < n.len() {
        s
    } else if s.take(n.len() as int) == n {
        w + replace_all(s.skip(n.len() as int), n, w)
    } else {
        seq![s[0]] + replace_all(s.drop_first(), n, w)
    }
}

/// The decimal digits of `n`, most significant first, without leading zeros.
pub open spec fn decimal(n: nat) -> Seq<char>
    decreases n,
{
    if n < 10 {
        seq![digit_char(n)]
    } else {
        decimal(n / 10).push(digit_char(n % 10))
    }
}

pub open spec fn digit_char(d: nat) -> char {
    (('0' as u32) + d) as char
}

/// Decimal rendering of a signed integer, with a leading `'-'` when negative.
pub open spec fn signed_decimal(n: int) -> Seq<char> {
    if n < 0 {
        seq!['-'] + decimal((-n) as nat)
    } else {
        decimal(n as nat)
    }
}

/// `s` padded with spaces on the right up to `width` characters.
pub open spec fn pad_right(s: Seq<char>, width: nat) -> Seq<char> {
    if s.len() >= width {
        s
    } else {
        s + Seq::new((width - s.len()) as nat, |i: int| ' ')
    }
}

/// The items of `parts` separated by `sep`.
pub open spec fn join(parts: Seq<Seq<char>>, sep: Seq<char>) -> Seq<char>
    decreases parts.len(),
{
    if parts.len() == 0 {
        seq![]
    } else if parts.len() == 1 {
        parts[0]
    } else {
        join(parts.drop_last(), sep) + sep + parts.last()
    }
}

/// The character views of a sequence of character vectors.
pub open spec fn seqs(v: Seq<Vec<char>>) -> Seq<Seq<char>> {
    v.map_values(|x: Vec<char>| x@)
}

/// The character views of a sequence of strings.
pub open spec fn strs(v: Seq<String>) -> Seq<Seq<char>> {
    v.map_values(|x: String| x@)
}

/// The character view of an optional string.
pub open spec fn opt_view(o: Option<String>) -> Option<Seq<char>> {
    match o {
        Some(s) => Some(s@),
        None => None,
    }
}

/// The first index `j >= i` at which `n` occurs in `s`, or `-1`.
pub open spec fn find_from(s: Seq<char>, n: Seq<char>, i: int) -> int
    decreases s.len() + 1 - i,
{
    if i < 0 || i > s.len() {
        -1
    } else if occurs_at(s, n, i) {
        i
    } else {
        find_from(s, n, i + 1)
    }
}

/// The index of the last `c` in `s`, or `-1`.
pub open spec fn rfind_char(s: Seq<char>, c: char) -> int
    decreases s.len(),
{
    if s.len() == 0 {
        -1
    } else if s.last() == c {
        s.len() - 1
    } else {
        rfind_char(s.drop_last(), c)
    }
}

/// Lexicographic order on character sequences (std's `Ord` for `str`).
pub open spec fn seq_lt(a: Seq<char>, b: Seq<char>) -> bool
    decreases a.len(),
{
    if b.len() == 0 {
        false
    } else if a.len() == 0 {
        true
    } else if a[0] != b[0] {
        a[0] < b[0]
    } else {
        seq_lt(a.drop_first(), b.drop_first())
    }
}

/// The value of a sequence of ASCII digits.
pub open spec fn digits_value(s: Seq<char>) -> nat
    decreases s.len(),
{
    if s.len() == 0 {
        0
    } else {
        digits_value(s.drop_last()) * 10 + ((s.last() as u32) - ('0' as u32)) as nat
    }
}

pub open spec fn all_digits(s: Seq<char>) -> bool {
    forall|i: int| 0 <= i < s.len() ==> is_ascii_digit(#[trigger] s[i])
}

/// std's `str::parse::<u16>`: an optional `'+'`, then one or more ASCII
/// digits whose value fits in 16 bits.
pub open spec fn parse_u16(p: Seq<char>) -> Option<u16> {
    let d = if p.len() > 0 && p[0] == '+' {
        p.drop_first()
    } else {
        p
    };
    if d.len() > 0 && all_digits(d) && digits_value(d) <= 65535 {
        Some(digits_value(d) as u16)
    } else {
        None
    }
}

/// The text of an optional string, or `dflt` when absent.
pub open spec fn or_text(o: Option<String>, dflt: Seq<char>) -> Seq<char> {
    match o {
        Some(s) => s@,
        None => dflt,
    }
}

/// Appends the optional string `o`, or `dflt` when it is absent.
pub fn push_or(s: &mut String, o: &Option<String>, dflt: &str)
    ensures
        final(s)@ == old(s)@ + match *o {
            Some(t) => t@,
            None => dflt@,
        },
{
    match o {
        Some(t) => s.append(t.as_str()),
        None => s.append(dflt),
    }
}

// ---------------------------------------------------------------- lemmas

pub proof fn lemma_trim_start_shape(s: Seq<char>)
    ensures
        trim_start(s).len() <= s.len(),
        trim_start(s).len() > 0 ==> !is_ws(trim_start(s)[0]),
    decreases s.len(),
{
    if s.len() > 0 && is_ws(s[0]) {
        lemma_trim_start_shape(s.drop_first());
    }
}

pub proof fn lemma_word_len_bound(s: Seq<char>)
    ensures
        word_len(s) <= s.len(),
        s.len() > 0 && !is_ws(s[0]) ==> word_len(s) >= 1,
    decreases s.len(),
{
    if s.len() > 0 && !is_ws(s[0]) {
        lemma_word_len_bound(s.drop_first());
    }
}

proof fn lemma_skip_drop_first(s: Seq<char>, i: int)
    requires
        0 <= i < s.len(),
    ensures
        s.skip(i).drop_first() == s.skip(i + 1),
{
    assert(s.skip(i).drop_first() =~= s.skip(i + 1));
}

proof fn lemma_find_char_skip(s: Seq<char>, c: char, i: int, j: int)
    requires
        0 <= i <= j <= s.len(),
        forall|k: int| i <= k < j ==> s[k] != c,
        j == s.len() || s[j] == c,
    ensures
        find_char(s.skip(i), c) == j - i,
    decreases j - i,
{
    if i < j {
        lemma_find_char_skip(s, c, i + 1, j);
        lemma_skip_drop_first(s, i);
    }
}

proof fn lemma_trim_start_skip(s: Seq<char>, i: int, j: int)
    requires
        0 <= i <= j <= s.len(),
        forall|k: int| i <= k < j ==> is_ws(#[trigger] s[k]),
    ensures
        trim_start(s.skip(i)) == trim_start(s.skip(j)),
    decreases j - i,
{
    if i < j {
        lemma_skip_drop_first(s, i);
        lemma_trim_start_skip(s, i + 1, j);
    }
}

proof fn lemma_word_len_skip(s: Seq<char>, i: int, j: int)
    requires
        0 <= i <= j <= s.len(),
        forall|k: int| i <= k < j ==> !is_ws(#[trigger] s[k]),
        j == s.len() || is_ws(s[j]),
    ensures
        word_len(s.skip(i)) == j - i,
    decreases j - i,
{
    if i < j {
        lemma_skip_drop_first(s, i);
        lemma_word_len_skip(s, i + 1, j);
    }
}

/// Unfolding `decimal` one digit at a time, from the right.
proof fn lemma_decimal_step(n: nat)
    requires
        n >= 10,
    ensures
        decimal(n) == decimal(n / 10).push(digit_char(n % 10)),
{
}

// ---------------------------------------------------------------- exec

/// The characters of `s`, in order.
pub fn chars_of(s: &str) -> (r: Vec<char>)
    ensures
        r@ == s@,
{
    let mut v: Vec<char> = Vec::new();
    for c in it: s.chars()
        invariant
            v@ == it.seq().take(it.index()),
            it.seq() == s@,
    {
        v.push(c);
    }
    v
}

/// Appends one character to `s` (std's `String::push`).
#[verifier::external_body]
fn push_char(s: &mut String, c: char)
    ensures
        final(s)@ == old(s)@.push(c),
{
    s.push(c);
}

/// Appends the characters of `v` to `s`.
pub fn push_chars(s: &mut String, v: &Vec<char>)
    ensures
        final(s)@ == old(s)@ + v@,
{
    let ghost s0 = s@;
    let mut i: usize = 0;
    while i < v.len()
        invariant
            i <= v.len(),
            s@ == s0 + v@.take(i as int),
        decreases v.len() - i,
    {
        push_char(s, v[i]);
        assert(v@.take(i as int).push(v@[i as int]) =~= v@.take(i + 1));
        i = i + 1;
    }
    assert(v@.take(v.len() as int) =~= v@);
}

/// The string whose characters are `v`.
pub fn string_of(v: &Vec<char>) -> (r: String)
    ensures
        r@ == v@,
{
    let mut s = String::new();
    push_chars(&mut s, v);
    s
}

/// A fresh `String` holding `s`.
pub fn owned(s: &str) -> (r: String)
    ensures
        r@ == s@,
{
    String::from_str(s)
}

/// `s` followed by `t`.
pub fn cat(s: &str, t: &str) -> (r: String)
    ensures
        r@ == s@ + t@,
{
    let mut r = String::from_str(s);
    r.append(t);
    r
}

pub fn is_whitespace(c: char) -> (r: bool)
    ensures
        r == is_ws(c),
{
    ('\t' <= c && c <= '\r') || c == ' ' || c == '\u{85}' || c == '\u{a0}' || c == '\u{1680}'
        || ('\u{2000}' <= c && c <= '\u{200a}') || c == '\u{2028}' || c == '\u{2029}' || c
        == '\u{202f}' || c == '\u{205f}' || c == '\u{3000}'
}

pub fn lower_char_exec(c: char) -> (r: char)
    ensures
        r == lower_char(c),
{
    if 'A' <= c && c <= 'Z' {
        let u: u32 = c as u32;
        let l: u32 = u + 32;
        assert(('a' as u32) <= l && l <= ('z' as u32));
        char_from_ascii(l)
    } else {
        c
    }
}

/// The character with an ASCII code point.
fn char_from_ascii(u: u32) -> (r: char)
    requires
        u < 128,
    ensures
        r == u as char,
{
    let b: u8 = u as u8;
    b as char
}

/// ASCII lower-casing (std's `to_ascii_lowercase`).
pub fn lower_chars(s: &Vec<char>) -> (r: Vec<char>)
    ensures
        r@ == lower(s@),
{
    let mut r: Vec<char> = Vec::new();
    let mut i: usize = 0;
    while i < s.len()
        invariant
            i <= s.len(),
            r@ == lower(s@.take(i as int)),
        decreases s.len() - i,
    {
        let c = lower_char_exec(s[i]);
        r.push(c);
        assert(lower(s@.take(i + 1)) =~= lower(s@.take(i as int)).push(lower_char(s@[i as int])));
        i = i + 1;
    }
    assert(s@.take(s.len() as int) =~= s@);
    r
}

/// Whether `n` occurs in `s` at index `i`.
pub fn occurs_at_exec(s: &Vec<char>, n: &Vec<char>, i: usize) -> (r: bool)
    ensures
        r == occurs_at(s@, n@, i as int),
{
    if i > s.len() || n.len() > s.len() - i {
        return false;
    }
    let mut j: usize = 0;
    while j < n.len()
        invariant
            i + n.len() <= s.len(),
            j <= n.len(),
            forall|k: int| 0 <= k < j ==> s@[i + k] == n@[k],
        decreases n.len() - j,
    {
        if s[i + j] != n[j] {
            assert(s@.subrange(i as int, i + n.len())[j as int] != n@[j as int]);
            return false;
        }
        j = j + 1;
    }
    assert(s@.subrange(i as int, i + n.len()) =~= n@);
    true
}

/// Whether `n` occurs anywhere in `s` (std's `str::contains`).
pub fn contains_chars(s: &Vec<char>, n: &Vec<char>) -> (r: bool)
    ensures
        r == contains(s@, n@),
{
    if n.len() > s.len() {
        assert(forall|i: int| !occurs_at(s@, n@, i));
        return false;
    }
    let mut i: usize = 0;
    loop
        invariant
            n.len() <= s.len(),
            i <= s.len() - n.len(),
            forall|k: int| 0 <= k < i ==> !occurs_at(s@, n@, k),
        ensures
            forall|k: int| 0 <= k <= s.len() - n.len() ==> !occurs_at(s@, n@, k),
        decreases s.len() - n.len() - i,
    {
        if occurs_at_exec(s, n, i) {
            return true;
        }
        if i == s.len() - n.len() {
            break;
        }
        i = i + 1;
    }
    assert(forall|k: int| !occurs_at(s@, n@, k));
    false
}

/// Whether the literal `n` occurs in `s`.
pub fn contains_str(s: &Vec<char>, n: &str) -> (r: bool)
    ensures
        r == contains(s@, n@),
{
    let nv = chars_of(n);
    contains_chars(s, &nv)
}

/// Whether `s` starts with the literal `p`.
pub fn starts_with_str(s: &Vec<char>, p: &str) -> (r: bool)
    ensures
        r == starts_with(s@, p@),
{
    let pv = chars_of(p);
    occurs_at_exec(s, &pv, 0)
}

/// The characters of `s` from `from` to `to`.
pub fn slice_chars(s: &Vec<char>, from: usize, to: usize) -> (r: Vec<char>)
    requires
        from <= to <= s.len(),
    ensures
        r@ == s@.subrange(from as int, to as int),
{
    let mut r: Vec<char> = Vec::new();
    let mut i: usize = from;
    while i < to
        invariant
            from <= i <= to <= s.len(),
            r@ == s@.subrange(from as int, i as int),
        decreases to - i,
    {
        r.push(s[i]);
        assert(s@.subrange(from as int, i + 1) =~= s@.subrange(from as int, i as int).push(
            s@[i as int],
        ));
        i = i + 1;
    }
    r
}

/// Index of the first character of `s` that is not whitespace.
fn first_non_ws(s: &Vec<char>) -> (k: usize)
    ensures
        k <= s.len(),
        trim_start(s@) == s@.skip(k as int),
        forall|j: int| 0 <= j < k ==> is_ws(#[trigger] s@[j]),
        k < s.len() ==> !is_ws(s@[k as int]),
{
    let mut i: usize = 0;
    while i < s.len() && is_whitespace(s[i])
        invariant
            i <= s.len(),
            forall|j: int| 0 <= j < i ==> is_ws(#[trigger] s@[j]),
        decreases s.len() - i,
    {
        i = i + 1;
    }
    proof {
        lemma_trim_start_skip(s@, 0, i as int);
        assert(s@.skip(0) =~= s@);
    }
    i
}

/// `s` without leading whitespace (std's `trim_start`).
pub fn trim_start_chars(s: &Vec<char>) -> (r: Vec<char>)
    ensures
        r@ == trim_start(s@),
{
    let k = first_non_ws(s);
    let r = slice_chars(s, k, s.len());
    assert(r@ =~= s@.skip(k as int));
    r
}

proof fn lemma_trim_end_take(s: Seq<char>, i: int, j: int)
    requires
        0 <= i <= j <= s.len(),
        forall|k: int| i <= k < j ==> is_ws(#[trigger] s[k]),
    ensures
        trim_end(s.take(j)) == trim_end(s.take(i)),
    decreases j - i,
{
    if i < j {
        assert(s.take(j).drop_last() =~= s.take(j - 1));
        lemma_trim_end_take(s, i, j - 1);
    }
}

/// `s` without surrounding whitespace (std's `trim`).
pub fn trim_chars(s: &Vec<char>) -> (r: Vec<char>)
    ensures
        r@ == trim(s@),
{
    let t = trim_start_chars(s);
    let mut j: usize = t.len();
    while j > 0 && is_whitespace(t[j - 1])
        invariant
            j <= t.len(),
            forall|k: int| j <= k < t.len() ==> is_ws(#[trigger] t@[k]),
        decreases j,
    {
        j = j - 1;
    }
    proof {
        lemma_trim_end_take(t@, j as int, t.len() as int);
        assert(t@.take(t.len() as int) =~= t@);
        assert(trim_end(t@.take(j as int)) == t@.take(j as int));
    }
    let r = slice_chars(&t, 0, j);
    assert(r@ =~= t@.take(j as int));
    r
}

/// The lines of `s` (std's `str::lines`).
pub fn lines_of(s: &Vec<char>) -> (r: Vec<Vec<char>>)
    ensures
        seqs(r@) == lines(s@),
{
    let mut out: Vec<Vec<char>> = Vec::new();
    let mut start: usize = 0;
    let mut i: usize = 0;
    assert(s@.skip(0) =~= s@);
    assert(seqs(out@) =~= Seq::<Seq<char>>::empty());
    while i < s.len()
        invariant
            start <= i <= s.len(),
            forall|k: int| start <= k < i ==> s@[k] != '\n',
            lines(s@) == seqs(out@) + lines(s@.skip(start as int)),
        decreases s.len() - i,
    {
        if s[i] == '\n' {
            let mut piece = slice_chars(s, start, i);
            if piece.len() > 0 && piece[piece.len() - 1] == '\r' {
                piece.pop();
            }
            proof {
                let rest = s@.skip(start as int);
                lemma_find_char_skip(s@, '\n', start as int, i as int);
                assert(rest.take(i - start) =~= s@.subrange(start as int, i as int));
                assert(rest.skip(i - start + 1) =~= s@.skip(i + 1));
                assert(lines(rest) == seq![strip_cr(rest.take(i - start))] + lines(rest.skip(
                    i - start + 1,
                )));
            }
            let ghost old_out = seqs(out@);
            out.push(piece);
            assert(seqs(out@) =~= old_out.push(piece@));
            assert(lines(s@) == seqs(out@) + lines(s@.skip(i + 1)));
            start = i + 1;
        }
        i = i + 1;
    }
    if start < s.len() {
        let piece = slice_chars(s, start, s.len());
        proof {
            let rest = s@.skip(start as int);
            lemma_find_char_skip(s@, '\n', start as int, s.len() as int);
            assert(rest =~= piece@);
        }
        let ghost old_out = seqs(out@);
        out.push(piece);
        assert(seqs(out@) =~= old_out.push(piece@));
        assert(lines(s@) =~= seqs(out@));
    } else {
        assert(lines(s@.skip(start as int)) =~= Seq::<Seq<char>>::empty());
        assert(lines(s@) =~= seqs(out@));
    }
    out
}

/// The whitespace-separated words of `s` (std's `split_whitespace`).
pub fn words_of(s: &Vec<char>) -> (r: Vec<Vec<char>>)
    ensures
        seqs(r@) == words(s@),
{
    let mut out: Vec<Vec<char>> = Vec::new();
    let mut i: usize = 0;
    assert(s@.skip(0) =~= s@);
    assert(seqs(out@) =~= Seq::<Seq<char>>::empty());
    while i < s.len()
        invariant
            i <= s.len(),
            words(s@) == seqs(out@) + words(s@.skip(i as int)),
        decreases s.len() - i,
    {
        let ghost i0 = i;
        while i < s.len() && is_whitespace(s[i])
            invariant
                i0 <= i <= s.len(),
                forall|k: int| i0 <= k < i ==> is_ws(#[trigger] s@[k]),
            decreases s.len() - i,
        {
            i = i + 1;
        }
        proof {
            lemma_trim_start_skip(s@, i0 as int, i as int);
            if i < s.len() {
                assert(!is_ws(s@.skip(i as int)[0]));
            }
            assert(trim_start(s@.skip(i as int)) == s@.skip(i as int));
        }
        if i < s.len() {
            let b = i;
            while i < s.len() && !is_whitespace(s[i])
                invariant
                    b <= i <= s.len(),
                    forall|k: int| b <= k < i ==> !is_ws(#[trigger] s@[k]),
                decreases s.len() - i,
            {
                i = i + 1;
            }
            let w = slice_chars(s, b, i);
            proof {
                let t = s@.skip(b as int);
                lemma_word_len_skip(s@, b as int, i as int);
                assert(t.take(i - b) =~= w@);
                assert(t.skip(i - b) =~= s@.skip(i as int));
                assert(words(s@.skip(i0 as int)) == seq![w@] + words(s@.skip(i as int)));
            }
            let ghost old_out = seqs(out@);
            out.push(w);
            assert(seqs(out@) =~= old_out.push(w@));
            assert(words(s@) =~= seqs(out@) + words(s@.skip(i as int)));
        } else {
            assert(words(s@.skip(i0 as int)) =~= Seq::<Seq<char>>::empty());
            assert(s@.skip(i as int) =~= Seq::<char>::empty());
            assert(words(s@.skip(i as int)) =~= Seq::<Seq<char>>::empty());
        }
    }
    assert(s@.skip(i as int) =~= Seq::<char>::empty());
    assert(words(s@.skip(i as int)) =~= Seq::<Seq<char>>::empty());
    assert(seqs(out@) + Seq::<Seq<char>>::empty() =~= seqs(out@));
    out
}

/// `s` with every occurrence of `n` replaced by `w` (std's `str::replace`).
pub fn replace_chars(s: &Vec<char>, n: &Vec<char>, w: &Vec<char>) -> (r: Vec<char>)
    requires
        n.len() > 0,
    ensures
        r@ == replace_all(s@, n@, w@),
{
    let mut out: Vec<char> = Vec::new();
    let mut i: usize = 0;
    assert(s@.skip(0) =~= s@);
    while i < s.len()
        invariant
            i <= s.len(),
            n.len() > 0,
            replace_all(s@, n@, w@) == out@ + replace_all(s@.skip(i as int), n@, w@),
        decreases s.len() - i,
    {
        let ghost rest = s@.skip(i as int);
        if occurs_at_exec(s, n, i) {
            proof {
                assert(rest.take(n.len() as int) =~= s@.subrange(i as int, i + n.len()));
                assert(rest.skip(n.len() as int) =~= s@.skip(i + n.len()));
            }
            let mut j: usize = 0;
            let ghost o0 = out@;
            while j < w.len()
                invariant
                    j <= w.len(),
                    out@ == o0 + w@.take(j as int),
                decreases w.len() - j,
            {
                out.push(w[j]);
                assert(w@.take(j + 1) =~= w@.take(j as int).push(w@[j as int]));
                j = j + 1;
            }
            assert(w@.take(w.len() as int) =~= w@);
            assert(o0 + (w@ + replace_all(rest.skip(n.len() as int), n@, w@)) =~= out@
                + replace_all(s@.skip(i + n.len()), n@, w@));
            i = i + n.len();
        } else {
            proof {
                if rest.len() >= n.len() {
                    assert(rest.take(n.len() as int) =~= s@.subrange(i as int, i + n.len()));
                    assert(rest.take(n.len() as int) != n@);
                    lemma_skip_drop_first(s@, i as int);
                    assert(replace_all(rest, n@, w@) == seq![rest[0]] + replace_all(
                        s@.skip(i + 1),
                        n@,
                        w@,
                    ));
                    assert(out@ + replace_all(rest, n@, w@) =~= out@.push(s@[i as int])
                        + replace_all(s@.skip(i + 1), n@, w@));
                } else {
                    assert(replace_all(rest, n@, w@) == rest);
                    assert(rest =~= seq![s@[i as int]] + s@.skip(i + 1));
                    assert(s@.skip(i + 1).len() < n.len());
                    assert(replace_all(s@.skip(i + 1), n@, w@) == s@.skip(i + 1));
                    assert(out@ + replace_all(rest, n@, w@) =~= out@.push(s@[i as int])
                        + replace_all(s@.skip(i + 1), n@, w@));
                }
            }
            out.push(s[i]);
            i = i + 1;
        }
    }
    assert(s@.skip(i as int) =~= Seq::<char>::empty());
    assert(out@ + Seq::<char>::empty() =~= out@);
    out
}

/// Decimal rendering of an unsigned integer (std's `Display` for `u64`).
pub fn decimal_of(n: u64) -> (r: Vec<char>)
    ensures
        r@ == decimal(n as nat),
    decreases n,
{
    if n < 10 {
        let c = digit_exec(n);
        let mut v: Vec<char> = Vec::new();
        v.push(c);
        assert(v@ =~= seq![digit_char(n as nat)]);
        v
    } else {
        let mut v = decimal_of(n / 10);
        let c = digit_exec(n % 10);
        v.push(c);
        proof {
            lemma_decimal_step(n as nat);
        }
        v
    }
}

fn digit_exec(d: u64) -> (c: char)
    requires
        d < 10,
    ensures
        c == digit_char(d as nat),
{
    let u: u32 = 48 + (d as u32);
    char_from_ascii(u)
}

/// Decimal rendering of a signed integer (std's `Display` for `i32`).
pub fn signed_decimal_of(n: i32) -> (r: Vec<char>)
    ensures
        r@ == signed_decimal(n as int),
{
    if n < 0 {
        let m: i64 = -(n as i64);
        let d = decimal_of(m as u64);
        let mut v: Vec<char> = Vec::new();
        v.push('-');
        let mut i: usize = 0;
        while i < d.len()
            invariant
                i <= d.len(),
                v@ == seq!['-'] + d@.take(i as int),
            decreases d.len() - i,
        {
            v.push(d[i]);
            assert(d@.take(i + 1) =~= d@.take(i as int).push(d@[i as int]));
            i = i + 1;
        }
        assert(d@.take(d.len() as int) =~= d@);
        v
    } else {
        decimal_of(n as u64)
    }
}

/// `s` padded with spaces on the right to `width` characters (std's `{:<w}`).
pub fn pad_right_chars(s: &Vec<char>, width: usize) -> (r: Vec<char>)
    ensures
        r@ == pad_right(s@, width as nat),
{
    let mut r = slice_chars(s, 0, s.len());
    assert(r@ =~= s@);
    if r.len() < width {
        let ghost n = (width - s.len()) as nat;
        while r.len() < width
            invariant
                s.len() <= r.len() <= width,
                r@ == s@ + Seq::new((r.len() - s.len()) as nat, |i: int| ' '),
            decreases width - r.len(),
        {
            let ghost before = r@;
            r.push(' ');
            assert(r@ =~= s@ + Seq::new((r.len() - s.len()) as nat, |i: int| ' '));
        }
    }
    r
}

/// Whether two character sequences are equal.
pub fn chars_eq(a: &Vec<char>, b: &Vec<char>) -> (r: bool)
    ensures
        r == (a@ == b@),
{
    if a.len() != b.len() {
        return false;
    }
    let r = occurs_at_exec(a, b, 0);
    assert(r ==> a@.subrange(0, b.len() as int) =~= a@);
    assert(a@ == b@ ==> a@.subrange(0, b.len() as int) =~= a@);
    r
}

/// Whether two strings are equal.
pub fn str_eq(a: &str, b: &str) -> (r: bool)
    ensures
        r == (a@ == b@),
{
    let av = chars_of(a);
    let bv = chars_of(b);
    chars_eq(&av, &bv)
}

/// The items of `parts` separated by `sep` (std's `join`).
pub fn join_chars(parts: &Vec<Vec<char>>, sep: &Vec<char>) -> (r: Vec<char>)
    ensures
        r@ == join(seqs(parts@), sep@),
{
    let mut out: Vec<char> = Vec::new();
    let mut i: usize = 0;
    while i < parts.len()
        invariant
            i <= parts.len(),
            out@ == join(seqs(parts@).take(i as int), sep@),
        decreases parts.len() - i,
    {
        let ghost prev = seqs(parts@).take(i as int);
        let mut piece: Vec<char> = Vec::new();
        if i > 0 {
            piece = slice_chars(sep, 0, sep.len());
            assert(piece@ =~= sep@);
        }
        let ghost mid = piece@;
        let mut j: usize = 0;
        while j < parts[i].len()
            invariant
                i < parts.len(),
                j <= parts[i as int].len(),
                piece@ == mid + parts[i as int]@.take(j as int),
            decreases parts[i as int].len() - j,
        {
            piece.push(parts[i][j]);
            assert(parts[i as int]@.take(j + 1) =~= parts[i as int]@.take(j as int).push(
                parts[i as int]@[j as int],
            ));
            j = j + 1;
        }
        assert(parts[i as int]@.take(j as int) =~= parts[i as int]@);
        let ghost before = out@;
        let mut k: usize = 0;
        while k < piece.len()
            invariant
                k <= piece.len(),
                out@ == before + piece@.take(k as int),
            decreases piece.len() - k,
        {
            out.push(piece[k]);
            assert(piece@.take(k + 1) =~= piece@.take(k as int).push(piece@[k as int]));
            k = k + 1;
        }
        assert(piece@.take(k as int) =~= piece@);
        proof {
            let cur = seqs(parts@).take(i + 1);
            assert(cur.drop_last() =~= prev);
            assert(cur.last() == parts[i as int]@);
            if i == 0 {
                assert(cur.len() == 1);
                assert(out@ =~= join(cur, sep@));
            } else {
                assert(out@ =~= join(prev, sep@) + sep@ + parts[i as int]@);
            }
        }
        i = i + 1;
    }
    assert(seqs(parts@).take(parts.len() as int) =~= seqs(parts@));
    out
}

proof fn lemma_find_from_step(s: Seq<char>, n: Seq<char>, i: int, j: int)
    requires
        0 <= i <= j <= s.len() + 1,
        forall|k: int| i <= k < j ==> !occurs_at(s, n, k),
    ensures
        find_from(s, n, i) == find_from(s, n, j),
    decreases j - i,
{
    if i < j {
        lemma_find_from_step(s, n, i + 1, j);
    }
}

/// The first index at which `n` occurs in `s`, if any (std's `str::find`).
pub fn find_chars(s: &Vec<char>, n: &Vec<char>) -> (r: Option<usize>)
    ensures
        match r {
            Some(i) => find_from(s@, n@, 0) == i as int && occurs_at(s@, n@, i as int),
            None => find_from(s@, n@, 0) == -1,
        },
{
    if n.len() > s.len() {
        proof {
            lemma_find_from_step(s@, n@, 0, s.len() + 1);
        }
        return None;
    }
    let mut i: usize = 0;
    loop
        invariant
            n.len() <= s.len(),
            i <= s.len() - n.len(),
            forall|k: int| 0 <= k < i ==> !occurs_at(s@, n@, k),
        decreases s.len() - n.len() - i,
    {
        if occurs_at_exec(s, n, i) {
            proof {
                lemma_find_from_step(s@, n@, 0, i as int);
            }
            return Some(i);
        }
        if i == s.len() - n.len() {
            proof {
                assert forall|k: int| 0 <= k < s.len() + 1 implies !occurs_at(s@, n@, k) by {
                    if k > i {
                        assert(k + n.len() > s.len());
                    }
                }
                lemma_find_from_step(s@, n@, 0, s.len() + 1);
            }
            return None;
        }
        i = i + 1;
    }
}

proof fn lemma_rfind_char(s: Seq<char>, c: char, k: int)
    requires
        -1 <= k < s.len(),
        forall|j: int| k < j < s.len() ==> s[j] != c,
        k == -1 || s[k] == c,
    ensures
        rfind_char(s, c) == k,
    decreases s.len(),
{
    if s.len() > 0 && s.last() != c {
        lemma_rfind_char(s.drop_last(), c, k);
    }
}

/// The index of the last `c` in `s`, if any (std's `str::rfind`).
pub fn rfind_char_exec(s: &Vec<char>, c: char) -> (r: Option<usize>)
    ensures
        match r {
            Some(i) => rfind_char(s@, c) == i as int && i < s@.len() && s@[i as int] == c,
            None => rfind_char(s@, c) == -1,
        },
{
    let mut j: usize = s.len();
    while j > 0 && s[j - 1] != c
        invariant
            j <= s.len(),
            forall|k: int| j <= k < s.len() ==> s@[k] != c,
        decreases j,
    {
        j = j - 1;
    }
    if j == 0 {
        proof {
            lemma_rfind_char(s@, c, -1);
        }
        None
    } else {
        proof {
            lemma_rfind_char(s@, c, j - 1);
        }
        Some(j - 1)
    }
}

proof fn lemma_digits_value_push(s: Seq<char>, c: char)
    ensures
        digits_value(s.push(c)) == digits_value(s) * 10 + ((c as u32) - ('0' as u32)) as nat,
{
    assert(s.push(c).drop_last() =~= s);
}

proof fn lemma_digits_value_mono(s: Seq<char>, k: int)
    requires
        0 <= k <= s.len(),
        all_digits(s),
    ensures
        digits_value(s.take(k)) <= digits_value(s),
    decreases s.len() - k,
{
    if k < s.len() {
        lemma_digits_value_mono(s, k + 1);
        assert(s.take(k + 1) =~= s.take(k).push(s[k]));
        lemma_digits_value_push(s.take(k), s[k]);
        assert(is_ascii_digit(s[k]));
    } else {
        assert(s.take(k) =~= s);
    }
}

/// std's `str::parse::<u16>`.
pub fn parse_u16_exec(p: &Vec<char>) -> (r: Option<u16>)
    ensures
        r == parse_u16(p@),
{
    let start: usize = if p.len() > 0 && p[0] == '+' {
        1
    } else {
        0
    };
    let ghost d = if p@.len() > 0 && p@[0] == '+' {
        p@.drop_first()
    } else {
        p@
    };
    assert(d =~= p@.skip(start as int));
    if start >= p.len() {
        return None;
    }
    let mut acc: u32 = 0;
    let mut i: usize = start;
    while i < p.len()
        invariant
            start <= i <= p.len(),
            start < p.len(),
            d == p@.skip(start as int),
            d == (if p@.len() > 0 && p@[0] == '+' {
                p@.drop_first()
            } else {
                p@
            }),
            all_digits(d.take(i - start)),
            acc == digits_value(d.take(i - start)),
            acc <= 65535,
        decreases p.len() - i,
    {
        let c = p[i];
        if !('0' <= c && c <= '9') {
            assert(d[i - start] == c);
            assert(!all_digits(d));
            return None;
        }
        let dv: u32 = (c as u32) - 48;
        proof {
            assert(d.take(i - start + 1) =~= d.take(i - start).push(c));
            lemma_digits_value_push(d.take(i - start), c);
        }
        acc = acc * 10 + dv;
        i = i + 1;
        if acc > 65535 {
            proof {
                if all_digits(d) {
                    lemma_digits_value_mono(d, i - start);
                }
            }
            return None;
        }
    }
    assert(d.take(i - start) =~= d);
    Some(acc as u16)
}

proof fn lemma_seq_lt_irreflexive(a: Seq<char>)
    ensures
        !seq_lt(a, a),
    decreases a.len(),
{
    if a.len() > 0 {
        lemma_seq_lt_irreflexive(a.drop_first());
    }
}

/// `seq_lt` is a strict total order.
pub proof fn lemma_seq_lt_order(a: Seq<char>, b: Seq<char>, c: Seq<char>)
    ensures
        !seq_lt(a, a),
        a != b ==> seq_lt(a, b) || seq_lt(b, a),
        seq_lt(a, b) ==> !seq_lt(b, a),
        seq_lt(a, b) && seq_lt(b, c) ==> seq_lt(a, c),
    decreases a.len() + b.len() + c.len(),
{
    lemma_seq_lt_irreflexive(a);
    if a.len() > 0 && b.len() > 0 && c.len() > 0 {
        lemma_seq_lt_order(a.drop_first(), b.drop_first(), c.drop_first());
        if a != b && a[0] == b[0] {
            assert(a.drop_first() != b.drop_first()) by {
                if a.drop_first() == b.drop_first() {
                    assert(a =~= seq![a[0]] + a.drop_first());
                    assert(b =~= seq![b[0]] + b.drop_first());
                }
            }
        }
    } else if a.len() > 0 && b.len() > 0 {
        lemma_seq_lt_order(a.drop_first(), b.drop_first(), c);
        if a != b && a[0] == b[0] {
            assert(a.drop_first() != b.drop_first()) by {
                if a.drop_first() == b.drop_first() {
                    assert(a =~= seq![a[0]] + a.drop_first());
                    assert(b =~= seq![b[0]] + b.drop_first());
                }
            }
        }
    } else if a.len() == 0 && b.len() == 0 {
        assert(a =~= b);
    }
}

/// Lexicographic comparison (std's `<` on strings).
pub fn seq_lt_exec(a: &Vec<char>, b: &Vec<char>) -> (r: bool)
    ensures
        r == seq_lt(a@, b@),
{
    let mut i: usize = 0;
    assert(a@.skip(0) =~= a@);
    assert(b@.skip(0) =~= b@);
    while i < a.len() && i < b.len() && a[i] == b[i]
        invariant
            i <= a.len(),
            i <= b.len(),
            seq_lt(a@, b@) == seq_lt(a@.skip(i as int), b@.skip(i as int)),
        decreases a.len() - i,
    {
        proof {
            assert(a@.skip(i as int).drop_first() =~= a@.skip(i + 1));
            assert(b@.skip(i as int).drop_first() =~= b@.skip(i + 1));
        }
        i = i + 1;
    }
    if i == b.len() {
        false
    } else if i == a.len() {
        true
    } else {
        a[i] < b[i]
    }
}

/// An occurrence in `a` stays where it is when `b` is appended.
pub proof fn lemma_occurs_prefix(a: Seq<char>, b: Seq<char>, x: Seq<char>, p: int)
    requires
        occurs_at(a, x, p),
    ensures
        occurs_at(a + b, x, p),
{
    assert((a + b).subrange(p, p + x.len()) =~= a.subrange(p, p + x.len()));
}

/// An occurrence in `b` moves by the length of `a` when `a` is put in front.
pub proof fn lemma_occurs_shift(a: Seq<char>, b: Seq<char>, x: Seq<char>, p: int)
    requires
        occurs_at(b, x, p),
    ensures
        occurs_at(a + b, x, a.len() + p),
{
    assert((a + b).subrange(a.len() + p, a.len() + p + x.len()) =~= b.subrange(p, p + x.len()));
}

} // verus!
