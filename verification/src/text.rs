//! Character-sequence helpers shared by the rest of the crate.

use vstd::prelude::*;
use vstd::string::*;

verus! {

/// Collects the characters of a string slice.
pub fn chars_of(s: &str) -> (v: Vec<char>)
    ensures
        v@ == s@,
{
    let mut v: Vec<char> = Vec::new();
    for c in it: s.chars()
        invariant
            v@ == it.seq().take(it.index() as int),
            it.seq() == s@,
    {
        v.push(c);
    }
    v
}


/// Builds a `String` from a slice of characters.
/// Trusted: `Iterator::collect` into `String` (std's `FromIterator<&char>`)
/// yields exactly the characters in order.
#[verifier::external_body]
pub(crate) fn string_of(cs: &[char]) -> (s: String)
    ensures
        s@ == cs@,
{
    cs.iter().collect()
}

/// ASCII whitespace as `char::is_ascii_whitespace` defines it.
pub open spec fn is_ascii_ws(c: char) -> bool {
    c == ' ' || c == '\t' || c == '\n' || c == '\x0C' || c == '\r'
}

/// Unicode `White_Space` characters, the set `char::is_whitespace` and
/// `str::trim` use.
pub open spec fn is_unicode_ws(c: char) -> bool {
    ||| ('\t' <= c && c <= '\r')
    ||| c == ' '
    ||| c == '\u{85}'
    ||| c == '\u{A0}'
    ||| c == '\u{1680}'
    ||| ('\u{2000}' <= c && c <= '\u{200A}')
    ||| c == '\u{2028}'
    ||| c == '\u{2029}'
    ||| c == '\u{202F}'
    ||| c == '\u{205F}'
    ||| c == '\u{3000}'
}

pub fn is_unicode_ws_exec(c: char) -> (b: bool)
    ensures
        b == is_unicode_ws(c),
{
    ('\t' <= c && c <= '\r') || c == ' ' || c == '\u{85}' || c == '\u{A0}' || c == '\u{1680}'
        || ('\u{2000}' <= c && c <= '\u{200A}') || c == '\u{2028}' || c == '\u{2029}'
        || c == '\u{202F}' || c == '\u{205F}' || c == '\u{3000}'
}

/// `s` with leading Unicode whitespace removed (`str::trim_start`).
pub open spec fn trim_start(s: Seq<char>) -> Seq<char>
    decreases s.len(),
{
    if s.len() > 0 && is_unicode_ws(s[0]) {
        trim_start(s.drop_first())
    } else {
        s
    }
}

/// `s` with trailing Unicode whitespace removed (`str::trim_end`).
pub open spec fn trim_end(s: Seq<char>) -> Seq<char>
    decreases s.len(),
{
    if s.len() > 0 && is_unicode_ws(s.last()) {
        trim_end(s.drop_last())
    } else {
        s
    }
}

/// `str::trim`: both ends stripped of Unicode whitespace.
pub open spec fn trim(s: Seq<char>) -> Seq<char> {
    trim_end(trim_start(s))
}

proof fn lemma_trim_start_skip(s: Seq<char>, i: int)
    requires
        0 <= i <= s.len(),
        forall|k: int| 0 <= k < i ==> is_unicode_ws(#[trigger] s[k]),
    ensures
        trim_start(s) == trim_start(s.subrange(i, s.len() as int)),
    decreases i,
{
    if i > 0 {
        assert(s.drop_first() =~= s.subrange(1, s.len() as int));
        lemma_trim_start_skip(s.drop_first(), i - 1);
        assert(s.drop_first().subrange(i - 1, s.drop_first().len() as int) =~= s.subrange(
            i,
            s.len() as int,
        ));
    } else {
        assert(s.subrange(0, s.len() as int) =~= s);
    }
}

proof fn lemma_trim_end_skip(s: Seq<char>, j: int)
    requires
        0 <= j <= s.len(),
        forall|k: int| j <= k < s.len() ==> is_unicode_ws(#[trigger] s[k]),
    ensures
        trim_end(s) == trim_end(s.subrange(0, j)),
    decreases s.len() - j,
{
    if j < s.len() {
        assert(s.drop_last() =~= s.subrange(0, s.len() - 1));
        lemma_trim_end_skip(s.drop_last(), j);
        assert(s.drop_last().subrange(0, j) =~= s.subrange(0, j));
    } else {
        assert(s.subrange(0, j) =~= s);
    }
}

/// Removes leading and trailing Unicode whitespace, like `str::trim`.
pub fn trim_chars(s: &[char]) -> (r: Vec<char>)
    ensures
        r@ == trim(s@),
{
    let n = s.len();
    let mut i: usize = 0;
    while i < n && is_unicode_ws_exec(s[i])
        invariant
            n == s@.len(),
            i <= n,
            forall|k: int| 0 <= k < i ==> is_unicode_ws(#[trigger] s@[k]),
        decreases n - i,
    {
        i = i + 1;
    }
    proof {
        lemma_trim_start_skip(s@, i as int);
    }
    let ghost mid = s@.subrange(i as int, n as int);
    assert(i < n ==> !is_unicode_ws(mid[0]));
    assert(trim_start(mid) == mid);
    let mut j: usize = n;
    while j > i && is_unicode_ws_exec(s[j - 1])
        invariant
            n == s@.len(),
            i <= j <= n,
            forall|k: int| j <= k < n ==> is_unicode_ws(#[trigger] s@[k]),
        decreases j,
    {
        j = j - 1;
    }
    proof {
        let m = mid;
        assert forall|k: int| j - i <= k < m.len() implies is_unicode_ws(#[trigger] m[k]) by {
            assert(m[k] == s@[k + i]);
        }
        lemma_trim_end_skip(m, j - i);
        let t = m.subrange(0, j - i);
        assert(t =~= s@.subrange(i as int, j as int));
        if t.len() > 0 {
            assert(t.last() == s@[j - 1]);
        }
        assert(trim_end(t) == t);
    }
    let mut r: Vec<char> = Vec::new();
    let mut k: usize = i;
    while k < j
        invariant
            n == s@.len(),
            i <= k <= j <= n,
            r@ =~= s@.subrange(i as int, k as int),
        decreases j - k,
    {
        r.push(s[k]);
        k = k + 1;
    }
    r
}


/// Index of the first `'\n'` at or after `start`, or `s.len()` when there is none.
pub open spec fn line_end(s: Seq<char>, start: int) -> int
    decreases s.len() - start,
{
    if start >= s.len() {
        s.len() as int
    } else if s[start] == '\n' {
        start
    } else {
        line_end(s, start + 1)
    }
}

/// The lines of `s[start..]` as `str::lines` yields them: split at `'\n'`,
/// a `'\r'` just before a `'\n'` dropped, no empty line after a final `'\n'`.
pub open spec fn lines_from(s: Seq<char>, start: int) -> Seq<Seq<char>>
    decreases s.len() + 1 - start,
{
    if start < 0 || start >= s.len() {
        Seq::empty()
    } else {
        proof {
            lemma_line_end_bounds(s, start);
        }
        let e = line_end(s, start);
        let raw = s.subrange(start, e);
        let line = if e < s.len() && raw.len() > 0 && raw.last() == '\r' {
            raw.drop_last()
        } else {
            raw
        };
        seq![line] + lines_from(s, e + 1)
    }
}

/// `str::lines` on a character sequence.
pub open spec fn str_lines(s: Seq<char>) -> Seq<Seq<char>> {
    lines_from(s, 0)
}

/// The lines that are not blank, each trimmed: what
/// `lines().filter(|l| !l.trim().is_empty())` followed by `trim()` gives.
pub open spec fn nonblank_trimmed(ls: Seq<Seq<char>>) -> Seq<Seq<char>>
    decreases ls.len(),
{
    if ls.len() == 0 {
        Seq::empty()
    } else {
        let head = if trim(ls[0]).len() > 0 {
            seq![trim(ls[0])]
        } else {
            Seq::empty()
        };
        head + nonblank_trimmed(ls.drop_first())
    }
}

pub proof fn lemma_line_end_bounds(s: Seq<char>, start: int)
    requires
        0 <= start <= s.len(),
    ensures
        start <= line_end(s, start) <= s.len(),
    decreases s.len() - start,
{
    if start < s.len() && s[start] != '\n' {
        lemma_line_end_bounds(s, start + 1);
    }
}

proof fn lemma_line_end(s: Seq<char>, start: int, e: int)
    requires
        0 <= start <= e <= s.len(),
        forall|k: int| start <= k < e ==> #[trigger] s[k] != '\n',
        e == s.len() || s[e] == '\n',
    ensures
        line_end(s, start) == e,
    decreases e - start,
{
    if start < e {
        lemma_line_end(s, start + 1, e);
    }
}

/// Splits into lines exactly as `str::lines` does.
pub fn lines_of(s: &[char]) -> (r: Vec<Vec<char>>)
    ensures
        r@.map_values(|l: Vec<char>| l@) == str_lines(s@),
{
    let n = s.len();
    let mut r: Vec<Vec<char>> = Vec::new();
    let mut start: usize = 0;
    while start < n
        invariant
            n == s@.len(),
            start <= n,
            r@.map_values(|l: Vec<char>| l@) + lines_from(s@, start as int) == str_lines(s@),
        decreases n - start,
    {
        let mut e: usize = start;
        while e < n && s[e] != '\n'
            invariant
                n == s@.len(),
                start <= e <= n,
                forall|k: int| start <= k < e ==> #[trigger] s@[k] != '\n',
            decreases n - e,
        {
            e = e + 1;
        }
        proof {
            lemma_line_end(s@, start as int, e as int);
        }
        let mut stop = e;
        if e < n && e > start && s[e - 1] == '\r' {
            stop = e - 1;
        }
        let mut line: Vec<char> = Vec::new();
        let mut k: usize = start;
        while k < stop
            invariant
                n == s@.len(),
                start <= k <= stop <= e <= n,
                line@ =~= s@.subrange(start as int, k as int),
            decreases stop - k,
        {
            line.push(s[k]);
            k = k + 1;
        }
        let ghost old_r = r@;
        proof {
            let raw = s@.subrange(start as int, e as int);
            if e < n && raw.len() > 0 && raw.last() == '\r' {
                assert(raw.drop_last() =~= line@);
            } else {
                assert(raw =~= line@);
            }
        }
        r.push(line);
        proof {
            assert(r@.map_values(|l: Vec<char>| l@) =~= old_r.map_values(|l: Vec<char>| l@).push(
                line@,
            ));
            assert(lines_from(s@, start as int) == seq![line@] + lines_from(s@, e + 1));
            assert(r@.map_values(|l: Vec<char>| l@) + lines_from(s@, e + 1) =~= old_r.map_values(
                |l: Vec<char>| l@,
            ) + lines_from(s@, start as int));
        }
        if e < n {
            start = e + 1;
        } else {
            start = n;
        }
    }
    proof {
        assert(lines_from(s@, start as int) =~= Seq::<Seq<char>>::empty());
        assert(r@.map_values(|l: Vec<char>| l@) + Seq::<Seq<char>>::empty() =~= r@.map_values(
            |l: Vec<char>| l@,
        ));
    }
    r
}

/// The non-blank lines of `s`, each trimmed.
pub fn nonblank_lines(s: &[char]) -> (r: Vec<Vec<char>>)
    ensures
        r@.map_values(|l: Vec<char>| l@) == nonblank_trimmed(str_lines(s@)),
{
    let ls = lines_of(s);
    let ghost all = ls@.map_values(|l: Vec<char>| l@);
    let mut r: Vec<Vec<char>> = Vec::new();
    let mut i: usize = 0;
    proof {
        assert(all.subrange(0, all.len() as int) =~= all);
        assert(r@.map_values(|l: Vec<char>| l@) =~= Seq::<Seq<char>>::empty());
        assert(Seq::<Seq<char>>::empty() + all =~= all);
    }
    while i < ls.len()
        invariant
            i <= ls@.len(),
            all == ls@.map_values(|l: Vec<char>| l@),
            all == str_lines(s@),
            r@.map_values(|l: Vec<char>| l@) + nonblank_trimmed(all.subrange(i as int, all.len() as int))
                == nonblank_trimmed(all),
        decreases ls@.len() - i,
    {
        let t = trim_chars(ls[i].as_slice());
        let ghost old_r = r@;
        let ghost rest = all.subrange(i as int, all.len() as int);
        proof {
            assert(rest.drop_first() =~= all.subrange(i + 1, all.len() as int));
            assert(rest[0] == ls@[i as int]@);
        }
        if t.len() > 0 {
            r.push(t);
            proof {
                assert(r@.map_values(|l: Vec<char>| l@) =~= old_r.map_values(|l: Vec<char>| l@).push(
                    t@,
                ));
                assert(nonblank_trimmed(rest) == seq![t@] + nonblank_trimmed(rest.drop_first()));
                assert(r@.map_values(|l: Vec<char>| l@) + nonblank_trimmed(rest.drop_first())
                    =~= old_r.map_values(|l: Vec<char>| l@) + nonblank_trimmed(rest));
            }
        } else {
            proof {
                assert(nonblank_trimmed(rest) =~= Seq::<Seq<char>>::empty() + nonblank_trimmed(
                    rest.drop_first(),
                ));
            }
        }
        i = i + 1;
    }
    proof {
        assert(all.subrange(i as int, all.len() as int) =~= Seq::<Seq<char>>::empty());
        assert(r@.map_values(|l: Vec<char>| l@) + Seq::<Seq<char>>::empty() =~= r@.map_values(
            |l: Vec<char>| l@,
        ));
    }
    r
}


/// The ASCII digit for `d` (`0 <= d < 10`).
pub open spec fn digit_char(d: int) -> char {
    if d == 0 {
        '0'
    } else if d == 1 {
        '1'
    } else if d == 2 {
        '2'
    } else if d == 3 {
        '3'
    } else if d == 4 {
        '4'
    } else if d == 5 {
        '5'
    } else if d == 6 {
        '6'
    } else if d == 7 {
        '7'
    } else if d == 8 {
        '8'
    } else {
        '9'
    }
}

/// Decimal notation of `n` without leading zeros, as `{}` prints it.
pub open spec fn decimal(n: nat) -> Seq<char>
    decreases n,
{
    if n < 10 {
        seq![digit_char(n as int)]
    } else {
        decimal(n / 10).push(digit_char((n % 10) as int))
    }
}

/// `s` padded on the left with `'0'` up to `width` characters, as `{:0w}` does.
pub open spec fn zero_padded(s: Seq<char>, width: nat) -> Seq<char> {
    if s.len() < width {
        Seq::new((width - s.len()) as nat, |i: int| '0') + s
    } else {
        s
    }
}

fn digit_char_exec(d: u64) -> (c: char)
    requires
        d < 10,
    ensures
        c == digit_char(d as int),
{
    if d == 0 {
        '0'
    } else if d == 1 {
        '1'
    } else if d == 2 {
        '2'
    } else if d == 3 {
        '3'
    } else if d == 4 {
        '4'
    } else if d == 5 {
        '5'
    } else if d == 6 {
        '6'
    } else if d == 7 {
        '7'
    } else if d == 8 {
        '8'
    } else {
        '9'
    }
}

/// Appends the decimal notation of `n`.
pub fn push_decimal(out: &mut Vec<char>, n: u64)
    ensures
        final(out)@ == old(out)@ + decimal(n as nat),
    decreases n,
{
    if n < 10 {
        out.push(digit_char_exec(n));
        proof {
            assert(old(out)@.push(digit_char(n as int)) =~= old(out)@ + decimal(n as nat));
        }
    } else {
        push_decimal(out, n / 10);
        out.push(digit_char_exec(n % 10));
        proof {
            assert(decimal(n as nat) == decimal((n / 10) as nat).push(digit_char((n % 10) as int)));
            assert(out@ =~= old(out)@ + decimal(n as nat));
        }
    }
}

/// Appends the decimal notation of `n`, left-padded with zeros to `width`.
pub fn push_decimal_padded(out: &mut Vec<char>, n: u64, width: usize)
    ensures
        final(out)@ == old(out)@ + zero_padded(decimal(n as nat), width as nat),
{
    let mut digits: Vec<char> = Vec::new();
    push_decimal(&mut digits, n);
    assert(digits@ =~= decimal(n as nat));
    let ghost start = out@;
    if digits.len() < width {
        let pad = width - digits.len();
        let mut i: usize = 0;
        while i < pad
            invariant
                i <= pad,
                out@ =~= start + Seq::new(i as nat, |k: int| '0'),
            decreases pad - i,
        {
            out.push('0');
            i = i + 1;
        }
    }
    let ghost mid = out@;
    let mut j: usize = 0;
    while j < digits.len()
        invariant
            j <= digits@.len(),
            out@ =~= mid + digits@.subrange(0, j as int),
        decreases digits@.len() - j,
    {
        out.push(digits[j]);
        j = j + 1;
    }
    proof {
        assert(digits@.subrange(0, digits@.len() as int) =~= digits@);
        if digits@.len() < width {
            assert(out@ =~= start + (Seq::new((width - digits@.len()) as nat, |k: int| '0') + digits@));
        } else {
            assert(out@ =~= start + digits@);
        }
    }
}


/// The characters of an optional string.
pub open spec fn opt_text(o: Option<String>) -> Option<Seq<char>> {
    match o {
        Some(s) => Some(s@),
        None => None,
    }
}

/// `base` joined with `p` as `Path::join` does on Unix: an absolute `p`
/// replaces `base`; otherwise a `/` is put between them unless `base` is
/// empty or already ends with one.
pub open spec fn path_join(base: Seq<char>, p: Seq<char>) -> Seq<char> {
    if p.len() > 0 && p[0] == '/' {
        p
    } else if base.len() == 0 || base.last() == '/' {
        base + p
    } else {
        base + seq!['/'] + p
    }
}

/// Joins two path pieces as `Path::join` does on Unix.
pub fn join_path(base: &str, p: &str) -> (joined: String)
    ensures
        joined@ == path_join(base@, p@),
{
    let pc = chars_of(p);
    if pc.len() > 0 && pc[0] == '/' {
        return p.to_owned();
    }
    let bc = chars_of(base);
    let mut out = base.to_owned();
    if !(bc.len() == 0 || bc[bc.len() - 1] == '/') {
        out.append("/");
        proof {
            assert("/"@ =~= seq!['/']) by {
                reveal_strlit("/");
            }
        }
    }
    out.append(p);
    out
}

} // verus!
