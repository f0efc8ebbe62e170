//! Text handling of the lexical-similarity endpoint: repair of a Spanish
//! decimal comma in the raw body, XML escaping and the XML documents it
//! answers with, and the prompts sent to and replies read from the
//! completion service.

use vstd::prelude::*;
use vstd::string::*;
use crate::text::{
    chars_of, decimal, is_ascii_ws, nonblank_lines, nonblank_trimmed, push_decimal, str_lines,
    string_of, trim, trim_chars,
};

verus! {

/// The JSON key whose number may carry a decimal comma: `"umbralSimilitud":`.
pub open spec fn threshold_key() -> Seq<char> {
    seq!['"', 'u', 'm', 'b', 'r', 'a', 'l', 'S', 'i', 'm', 'i', 'l', 'i', 't', 'u', 'd', '"', ':']
}

/// `pat` occurs in `s` at index `i`.
pub open spec fn matches_at(s: Seq<char>, pat: Seq<char>, i: int) -> bool {
    0 <= i && i + pat.len() <= s.len() && s.subrange(i, i + pat.len()) =~= pat
}

/// Index of the first occurrence of `pat` in `s` at or after `i`, or `-1`.
pub open spec fn find_from(s: Seq<char>, pat: Seq<char>, i: int) -> int
    decreases s.len() - i,
{
    if i < 0 || i + pat.len() > s.len() {
        -1
    } else if matches_at(s, pat, i) {
        i
    } else {
        find_from(s, pat, i + 1)
    }
}

/// Number of ASCII whitespace characters in `s` starting at `i`.
pub open spec fn ascii_ws_run(s: Seq<char>, i: int) -> int
    decreases s.len() - i,
{
    if 0 <= i < s.len() && is_ascii_ws(s[i]) {
        1 + ascii_ws_run(s, i + 1)
    } else {
        0
    }
}

/// A character of the number that may carry a decimal comma.
pub open spec fn is_number_char(c: char) -> bool {
    ('0' <= c && c <= '9') || c == ','
}

/// Number of ASCII digits and commas in `s` starting at `i`.
pub open spec fn number_run(s: Seq<char>, i: int) -> int
    decreases s.len() - i,
{
    if 0 <= i < s.len() && is_number_char(s[i]) {
        1 + number_run(s, i + 1)
    } else {
        0
    }
}

/// An ASCII decimal digit.
pub open spec fn is_ascii_digit(c: char) -> bool {
    '0' <= c && c <= '9'
}

/// Where the threshold's number lies in the raw body: from just past the
/// first `"umbralSimilitud":` and the ASCII whitespace after it, over the
/// digits and commas that follow; `(0, 0)` when the key is absent.
pub open spec fn number_span(s: Seq<char>) -> (int, int) {
    let p = find_from(s, threshold_key(), 0);
    if p < 0 {
        (0, 0)
    } else {
        let a = p + threshold_key().len();
        let n = a + ascii_ws_run(s, a);
        (n, n + number_run(s, n))
    }
}

/// Whether the character at `k` is a decimal comma of the threshold's
/// number: a comma inside the number with a digit right after it.
pub open spec fn decimal_comma_at(s: Seq<char>, k: int) -> bool {
    &&& number_span(s).0 <= k
    &&& k + 1 < number_span(s).1
    &&& s[k] == ','
    &&& is_ascii_digit(s[k + 1])
}

/// The raw body after the repair: every decimal comma of the threshold's
/// number becomes a full stop; everything else is unchanged.
pub open spec fn spanish_decimal_fixed(s: Seq<char>) -> Seq<char> {
    Seq::new(s.len(), |k: int| if decimal_comma_at(s, k) { '.' } else { s[k] })
}

proof fn lemma_span_bounds(s: Seq<char>)
    ensures
        0 <= number_span(s).0 <= number_span(s).1 <= s.len(),
        find_from(s, threshold_key(), 0) >= 0 ==> number_span(s).0 >= find_from(s, threshold_key(), 0)
            + threshold_key().len(),
{
    let p = find_from(s, threshold_key(), 0);
    if p >= 0 {
        lemma_find_found(s, threshold_key(), 0);
        let a = p + threshold_key().len();
        lemma_run_bounds(s, a);
        let n = a + ascii_ws_run(s, a);
        lemma_run_bounds(s, n);
    }
}

/// The repair keeps the length, and every character it changes was a comma
/// inside the threshold's number and is now a full stop.
pub proof fn lemma_repair_only_swaps_commas(s: Seq<char>)
    ensures
        spanish_decimal_fixed(s).len() == s.len(),
        forall|k: int| 0 <= k < s.len() && #[trigger] spanish_decimal_fixed(s)[k] != s[k] ==> s[k] == ','
            && spanish_decimal_fixed(s)[k] == '.' && number_span(s).0 <= k < number_span(s).1,
{
}

proof fn lemma_fixed_number_run(s: Seq<char>, i: int)
    requires
        number_span(s).0 <= i <= number_span(s).1,
        0 <= number_span(s).0,
        number_span(s).1 <= s.len(),
        number_span(s).1 == s.len() || !is_number_char(s[number_span(s).1]),
        forall|k: int| number_span(s).0 <= k < number_span(s).1 ==> is_number_char(#[trigger] s[k]),
    ensures
        0 <= number_run(spanish_decimal_fixed(s), i) <= number_span(s).1 - i,
        forall|k: int| i <= k < i + number_run(spanish_decimal_fixed(s), i) ==> !decimal_comma_at(s, k),
    decreases number_span(s).1 - i,
{
    let f = spanish_decimal_fixed(s);
    let hi = number_span(s).1;
    if i == hi {
        if i < s.len() {
            assert(!decimal_comma_at(s, i));
            assert(f[i] == s[i]);
        }
    } else if decimal_comma_at(s, i) {
        assert(f[i] == '.');
    } else {
        assert(f[i] == s[i]);
        lemma_fixed_number_run(s, i + 1);
    }
}

proof fn lemma_number_run_facts(s: Seq<char>, i: int)
    requires
        0 <= i <= s.len(),
    ensures
        i + number_run(s, i) == s.len() || !is_number_char(s[i + number_run(s, i)]),
        forall|k: int| i <= k < i + number_run(s, i) ==> is_number_char(#[trigger] s[k]),
    decreases s.len() - i,
{
    if i < s.len() && is_number_char(s[i]) {
        lemma_number_run_facts(s, i + 1);
    }
}

proof fn lemma_ws_run_facts(s: Seq<char>, i: int)
    requires
        0 <= i <= s.len(),
    ensures
        i + ascii_ws_run(s, i) == s.len() || !is_ascii_ws(s[i + ascii_ws_run(s, i)]),
        forall|k: int| i <= k < i + ascii_ws_run(s, i) ==> is_ascii_ws(#[trigger] s[k]),
    decreases s.len() - i,
{
    if i < s.len() && is_ascii_ws(s[i]) {
        lemma_ws_run_facts(s, i + 1);
    }
}

/// Repairing twice is repairing once: the repaired body has no decimal
/// comma left in the threshold's number.
pub proof fn lemma_repair_idempotent(s: Seq<char>)
    ensures
        spanish_decimal_fixed(spanish_decimal_fixed(s)) == spanish_decimal_fixed(s),
{
    let f = spanish_decimal_fixed(s);
    let key = threshold_key();
    let p = find_from(s, key, 0);
    lemma_span_bounds(s);
    if p < 0 {
        assert forall|k: int| 0 <= k < s.len() implies !decimal_comma_at(s, k) by {}
        assert(f =~= s);
        return;
    }
    lemma_find_found(s, key, 0);
    let a = p + key.len();
    lemma_run_bounds(s, a);
    lemma_ws_run_facts(s, a);
    let n = a + ascii_ws_run(s, a);
    lemma_run_bounds(s, n);
    lemma_number_run_facts(s, n);
    let hi = n + number_run(s, n);
    assert(number_span(s) == (n, hi));
    // The body agrees with the repaired one before the number.
    assert forall|k: int| 0 <= k < n implies #[trigger] f[k] == s[k] by {
        assert(!decimal_comma_at(s, k));
    }
    // The key is found at the same place.
    assert forall|j: int| 0 <= j < p implies !matches_at(f, key, j) by {
        if matches_at(f, key, j) {
            assert forall|m: int| 0 <= m < key.len() implies s[j + m] == key[m] by {
                assert(f.subrange(j, j + key.len())[m] == key[m]);
                assert(f[j + m] == s[j + m]);
            }
            assert(s.subrange(j, j + key.len()) =~= key);
            lemma_find_none_before(s, key, 0, j);
        }
    }
    assert(f.subrange(p, p + key.len()) =~= s.subrange(p, p + key.len()));
    assert(matches_at(f, key, p));
    lemma_find_skip(f, key, p);
    assert(find_from(f, key, 0) == p);
    // Same whitespace run.
    assert forall|k: int| a <= k < n implies is_ascii_ws(#[trigger] f[k]) by {
        assert(f[k] == s[k]);
    }
    if n < s.len() {
        if decimal_comma_at(s, n) {
            assert(f[n] == '.');
        } else {
            assert(f[n] == s[n]);
        }
        assert(!is_ascii_ws(f[n]));
    }
    lemma_ws_run_exact(f, a, n);
    // The number of the repaired body ends before the first repaired comma.
    lemma_fixed_number_run(s, n);
    let r2 = number_run(f, n);
    assert(number_span(f) == (n, n + r2));
    assert forall|k: int| 0 <= k < f.len() implies !decimal_comma_at(f, k) by {
        if decimal_comma_at(f, k) {
            assert(n <= k && k + 1 < n + r2);
            assert(!decimal_comma_at(s, k));
            assert(!decimal_comma_at(s, k + 1));
            assert(f[k] == s[k]);
            assert(f[k + 1] == s[k + 1]);
            assert(decimal_comma_at(s, k));
        }
    }
    assert(spanish_decimal_fixed(f) =~= f);
}

proof fn lemma_find_none_before(s: Seq<char>, pat: Seq<char>, i: int, j: int)
    requires
        0 <= i <= j,
        j < find_from(s, pat, i),
    ensures
        !matches_at(s, pat, j),
    decreases j - i,
{
    if i < j {
        lemma_find_none_before(s, pat, i + 1, j);
    }
}

proof fn lemma_find_skip(s: Seq<char>, pat: Seq<char>, i: int)
    requires
        0 <= i,
        i + pat.len() <= s.len() + 1,
        forall|j: int| 0 <= j < i ==> !matches_at(s, pat, j),
    ensures
        find_from(s, pat, 0) == find_from(s, pat, i),
    decreases i,
{
    if i > 0 {
        lemma_find_skip(s, pat, i - 1);
    }
}

proof fn lemma_run_bounds(s: Seq<char>, i: int)
    requires
        0 <= i <= s.len(),
    ensures
        0 <= ascii_ws_run(s, i) <= s.len() - i,
        0 <= number_run(s, i) <= s.len() - i,
    decreases s.len() - i,
{
    if i < s.len() {
        lemma_run_bounds(s, i + 1);
    }
}

proof fn lemma_ws_run_exact(s: Seq<char>, i: int, j: int)
    requires
        0 <= i <= j <= s.len(),
        forall|k: int| i <= k < j ==> is_ascii_ws(#[trigger] s[k]),
        j == s.len() || !is_ascii_ws(s[j]),
    ensures
        ascii_ws_run(s, i) == j - i,
    decreases j - i,
{
    if i < j {
        lemma_ws_run_exact(s, i + 1, j);
    }
}

proof fn lemma_number_run_exact(s: Seq<char>, i: int, j: int)
    requires
        0 <= i <= j <= s.len(),
        forall|k: int| i <= k < j ==> is_number_char(#[trigger] s[k]),
        j == s.len() || !is_number_char(s[j]),
    ensures
        number_run(s, i) == j - i,
    decreases j - i,
{
    if i < j {
        lemma_number_run_exact(s, i + 1, j);
    }
}

/// Whether `pat` occurs in `s` at index `i`.
fn matches_at_exec(s: &[char], pat: &[char], i: usize) -> (b: bool)
    requires
        i + pat@.len() <= s@.len(),
    ensures
        b == matches_at(s@, pat@, i as int),
{
    let mut k: usize = 0;
    while k < pat.len()
        invariant
            i + pat@.len() <= s@.len(),
            s@.len() == s.len(),
            k <= pat@.len(),
            forall|m: int| 0 <= m < k ==> s@[i + m] == pat@[m],
        decreases pat@.len() - k,
    {
        if s[i + k] != pat[k] {
            proof {
                assert(s@.subrange(i as int, i + pat@.len())[k as int] != pat@[k as int]);
            }
            return false;
        }
        k = k + 1;
    }
    proof {
        assert(s@.subrange(i as int, i + pat@.len()) =~= pat@);
    }
    true
}

/// Index of the first occurrence of `pat` in `s`, like `str::find`.
pub fn find_first(s: &[char], pat: &[char]) -> (r: Option<usize>)
    ensures
        match r {
            Some(p) => p == find_from(s@, pat@, 0),
            None => find_from(s@, pat@, 0) == -1,
        },
{
    let n = s.len();
    let k = pat.len();
    if k > n {
        return None;
    }
    let mut i: usize = 0;
    while i <= n - k
        invariant
            n == s@.len(),
            k == pat@.len(),
            k <= n,
            i + k <= n + 1,
            forall|j: int| 0 <= j < i ==> !matches_at(s@, pat@, j),
        decreases n + 1 - i - k,
    {
        if matches_at_exec(s, pat, i) {
            proof {
                lemma_find_skip(s@, pat@, i as int);
            }
            return Some(i);
        }
        i = i + 1;
    }
    proof {
        lemma_find_skip(s@, pat@, i as int);
    }
    None
}

fn is_ascii_ws_exec(c: char) -> (b: bool)
    ensures
        b == is_ascii_ws(c),
{
    c == ' ' || c == '\t' || c == '\n' || c == '\x0C' || c == '\r'
}

/// Turns `"umbralSimilitud": 30,00` (Spanish decimal comma) into
/// `"umbralSimilitud": 30.00` so that the body parses as JSON.
pub fn fix_spanish_decimal(raw: &str) -> (fixed: String)
    ensures
        fixed@ == spanish_decimal_fixed(raw@),
{
    let s = chars_of(raw);
    let key: Vec<char> = vec!['"', 'u', 'm', 'b', 'r', 'a', 'l', 'S', 'i', 'm', 'i', 'l', 'i', 't', 'u', 'd', '"', ':'];
    proof {
        assert(key@ =~= threshold_key());
    }
    let n = s.len();
    let p = match find_first(s.as_slice(), key.as_slice()) {
        Some(p) => p,
        None => {
            proof {
                assert(spanish_decimal_fixed(s@) =~= s@);
            }
            return string_of(s.as_slice());
        },
    };
    proof {
        assert(matches_at(s@, key@, p as int)) by {
            lemma_find_found(s@, key@, 0);
        }
    }
    let a = p + key.len();
    let mut w: usize = a;
    while w < n && is_ascii_ws_exec(s[w])
        invariant
            n == s@.len(),
            a <= w <= n,
            forall|k: int| a <= k < w ==> is_ascii_ws(#[trigger] s@[k]),
        decreases n - w,
    {
        w = w + 1;
    }
    proof {
        lemma_ws_run_exact(s@, a as int, w as int);
    }
    let num_pos = w;
    let mut e: usize = num_pos;
    while e < n && ((s[e] >= '0' && s[e] <= '9') || s[e] == ',')
        invariant
            n == s@.len(),
            num_pos <= e <= n,
            forall|k: int| num_pos <= k < e ==> is_number_char(#[trigger] s@[k]),
        decreases n - e,
    {
        e = e + 1;
    }
    proof {
        lemma_number_run_exact(s@, num_pos as int, e as int);
        assert(number_span(s@) == (num_pos as int, e as int));
    }
    let mut out: Vec<char> = Vec::new();
    let mut k: usize = 0;
    while k < n
        invariant
            n == s@.len(),
            number_span(s@) == (num_pos as int, e as int),
            num_pos <= e <= n,
            k <= n,
            out@.len() == k,
            forall|m: int| 0 <= m < k ==> #[trigger] out@[m] == spanish_decimal_fixed(s@)[m],
        decreases n - k,
    {
        if num_pos <= k && k + 1 < e && s[k] == ',' && s[k + 1] >= '0' && s[k + 1] <= '9' {
            out.push('.');
        } else {
            out.push(s[k]);
        }
        k = k + 1;
    }
    proof {
        assert(out@ =~= spanish_decimal_fixed(s@));
    }
    string_of(out.as_slice())
}

proof fn lemma_find_found(s: Seq<char>, pat: Seq<char>, i: int)
    requires
        0 <= i,
        find_from(s, pat, i) >= 0,
    ensures
        matches_at(s, pat, find_from(s, pat, i)),
        find_from(s, pat, i) >= i,
    decreases s.len() - i,
{
    if i + pat.len() <= s.len() && !matches_at(s, pat, i) {
        lemma_find_found(s, pat, i + 1);
    }
}


/// The XML entity that stands for `c`, or `c` itself.
pub open spec fn xml_escape_char(c: char) -> Seq<char> {
    if c == '&' {
        seq!['&', 'a', 'm', 'p', ';']
    } else if c == '<' {
        seq!['&', 'l', 't', ';']
    } else if c == '>' {
        seq!['&', 'g', 't', ';']
    } else if c == '"' {
        seq!['&', 'q', 'u', 'o', 't', ';']
    } else if c == '\'' {
        seq!['&', 'a', 'p', 'o', 's', ';']
    } else {
        seq![c]
    }
}

/// `s` with `& < > " '` replaced by their XML entities.
pub open spec fn xml_escaped(s: Seq<char>) -> Seq<char>
    decreases s.len(),
{
    if s.len() == 0 {
        Seq::empty()
    } else {
        xml_escaped(s.drop_last()) + xml_escape_char(s.last())
    }
}

/// A character that may not stand raw in XML text or attribute values.
pub open spec fn is_xml_special(c: char) -> bool {
    c == '<' || c == '>' || c == '"' || c == '\''
}

fn push_all(out: &mut Vec<char>, cs: &[char])
    ensures
        final(out)@ == old(out)@ + cs@,
{
    let mut i: usize = 0;
    while i < cs.len()
        invariant
            i <= cs@.len(),
            out@ == old(out)@ + cs@.subrange(0, i as int),
        decreases cs@.len() - i,
    {
        out.push(cs[i]);
        i = i + 1;
        proof {
            assert(cs@.subrange(0, i as int) =~= cs@.subrange(0, i - 1).push(cs@[i - 1]));
        }
    }
    proof {
        assert(cs@.subrange(0, cs@.len() as int) =~= cs@);
    }
}

/// Escapes `& < > " '` for XML text.
pub fn xml_escape(s: &str) -> (escaped: String)
    ensures
        escaped@ == xml_escaped(s@),
{
    let cs = chars_of(s);
    let mut out: Vec<char> = Vec::new();
    let mut i: usize = 0;
    while i < cs.len()
        invariant
            i <= cs@.len(),
            out@ == xml_escaped(cs@.subrange(0, i as int)),
        decreases cs@.len() - i,
    {
        let c = cs[i];
        let ghost before = out@;
        if c == '&' {
            push_all(&mut out, &['&', 'a', 'm', 'p', ';']);
        } else if c == '<' {
            push_all(&mut out, &['&', 'l', 't', ';']);
        } else if c == '>' {
            push_all(&mut out, &['&', 'g', 't', ';']);
        } else if c == '"' {
            push_all(&mut out, &['&', 'q', 'u', 'o', 't', ';']);
        } else if c == '\'' {
            push_all(&mut out, &['&', 'a', 'p', 'o', 's', ';']);
        } else {
            out.push(c);
        }
        proof {
            let pre = cs@.subrange(0, i + 1);
            assert(pre.drop_last() =~= cs@.subrange(0, i as int));
            assert(pre.last() == c);
            assert(out@ =~= before + xml_escape_char(c));
        }
        i = i + 1;
    }
    proof {
        assert(cs@.subrange(0, cs@.len() as int) =~= cs@);
    }
    string_of(out.as_slice())
}

/// Escaped text holds none of `< > " '`: whatever the input, the escaped
/// text cannot open or close markup or end a quoted attribute value.
pub proof fn lemma_xml_escaped_has_no_markup(s: Seq<char>)
    ensures
        forall|k: int| 0 <= k < xml_escaped(s).len() ==> !is_xml_special(#[trigger] xml_escaped(s)[k]),
    decreases s.len(),
{
    if s.len() > 0 {
        lemma_xml_escaped_has_no_markup(s.drop_last());
        let a = xml_escaped(s.drop_last());
        let b = xml_escape_char(s.last());
        assert forall|k: int| 0 <= k < xml_escaped(s).len() implies !is_xml_special(
            #[trigger] xml_escaped(s)[k],
        ) by {
            if k < a.len() {
                assert(xml_escaped(s)[k] == a[k]);
            } else {
                assert(xml_escaped(s)[k] == b[k - a.len()]);
            }
        }
    }
}

/// Text free of `& < > " '` is left as it is by escaping.
pub proof fn lemma_xml_escape_plain_identity(s: Seq<char>)
    requires
        forall|k: int| 0 <= k < s.len() ==> !is_xml_special(#[trigger] s[k]) && s[k] != '&',
    ensures
        xml_escaped(s) == s,
    decreases s.len(),
{
    if s.len() > 0 {
        lemma_xml_escape_plain_identity(s.drop_last());
        assert(s.drop_last().push(s.last()) =~= s);
    }
}

/// The five XML entities the escape writes.
pub open spec fn amp_entity() -> Seq<char> {
    seq!['&', 'a', 'm', 'p', ';']
}

pub open spec fn lt_entity() -> Seq<char> {
    seq!['&', 'l', 't', ';']
}

pub open spec fn gt_entity() -> Seq<char> {
    seq!['&', 'g', 't', ';']
}

pub open spec fn quot_entity() -> Seq<char> {
    seq!['&', 'q', 'u', 'o', 't', ';']
}

pub open spec fn apos_entity() -> Seq<char> {
    seq!['&', 'a', 'p', 'o', 's', ';']
}

/// One of the five entities starts at `k` in `t`.
pub open spec fn entity_at(t: Seq<char>, k: int) -> bool {
    ||| matches_at(t, amp_entity(), k)
    ||| matches_at(t, lt_entity(), k)
    ||| matches_at(t, gt_entity(), k)
    ||| matches_at(t, quot_entity(), k)
    ||| matches_at(t, apos_entity(), k)
}

/// XML text with the five entities read back as the characters they stand
/// for, from left to right; any other character is kept.
pub open spec fn xml_unescaped(t: Seq<char>) -> Seq<char>
    decreases t.len(),
{
    if t.len() == 0 {
        Seq::empty()
    } else if matches_at(t, amp_entity(), 0) {
        seq!['&'] + xml_unescaped(t.subrange(5, t.len() as int))
    } else if matches_at(t, lt_entity(), 0) {
        seq!['<'] + xml_unescaped(t.subrange(4, t.len() as int))
    } else if matches_at(t, gt_entity(), 0) {
        seq!['>'] + xml_unescaped(t.subrange(4, t.len() as int))
    } else if matches_at(t, quot_entity(), 0) {
        seq!['"'] + xml_unescaped(t.subrange(6, t.len() as int))
    } else if matches_at(t, apos_entity(), 0) {
        seq!['\''] + xml_unescaped(t.subrange(6, t.len() as int))
    } else {
        seq![t[0]] + xml_unescaped(t.subrange(1, t.len() as int))
    }
}

proof fn lemma_escaped_first(s: Seq<char>)
    requires
        s.len() > 0,
    ensures
        xml_escaped(s) == xml_escape_char(s[0]) + xml_escaped(s.drop_first()),
    decreases s.len(),
{
    if s.len() == 1 {
        assert(s.drop_last() =~= Seq::<char>::empty());
        assert(s.drop_first() =~= Seq::<char>::empty());
        assert(xml_escaped(s.drop_last()) =~= Seq::<char>::empty());
        assert(s.last() == s[0]);
        assert(xml_escaped(s) =~= xml_escape_char(s[0]));
        assert(xml_escaped(s.drop_first()) =~= Seq::<char>::empty());
        assert(xml_escaped(s) =~= xml_escape_char(s[0]) + xml_escaped(s.drop_first()));
    } else {
        let d = s.drop_last();
        lemma_escaped_first(d);
        assert(d.drop_first() =~= s.drop_first().drop_last());
        assert(s.drop_first().last() == s.last());
        assert(d[0] == s[0]);
        assert(xml_escaped(s) =~= xml_escape_char(s[0]) + xml_escaped(s.drop_first()));
    }
}

proof fn lemma_unescape_char(c: char, rest: Seq<char>)
    ensures
        xml_unescaped(xml_escape_char(c) + rest) == seq![c] + xml_unescaped(rest),
{
    let e = xml_escape_char(c);
    let t = e + rest;
    assert(t.subrange(e.len() as int, t.len() as int) =~= rest);
    if c == '&' {
        assert(t.subrange(0, 5) =~= amp_entity());
    } else if c == '<' {
        assert(t[1] == 'l');
        assert(!matches_at(t, amp_entity(), 0)) by {
            if matches_at(t, amp_entity(), 0) {
                assert(t.subrange(0, 5)[1] == 'a');
            }
        }
        assert(t.subrange(0, 4) =~= lt_entity());
    } else if c == '>' {
        assert(t[1] == 'g');
        assert(!matches_at(t, amp_entity(), 0)) by {
            if matches_at(t, amp_entity(), 0) {
                assert(t.subrange(0, 5)[1] == 'a');
            }
        }
        assert(!matches_at(t, lt_entity(), 0)) by {
            if matches_at(t, lt_entity(), 0) {
                assert(t.subrange(0, 4)[1] == 'l');
            }
        }
        assert(t.subrange(0, 4) =~= gt_entity());
    } else if c == '"' {
        assert(t[1] == 'q');
        assert(!matches_at(t, amp_entity(), 0)) by {
            if matches_at(t, amp_entity(), 0) {
                assert(t.subrange(0, 5)[1] == 'a');
            }
        }
        assert(!matches_at(t, lt_entity(), 0)) by {
            if matches_at(t, lt_entity(), 0) {
                assert(t.subrange(0, 4)[1] == 'l');
            }
        }
        assert(!matches_at(t, gt_entity(), 0)) by {
            if matches_at(t, gt_entity(), 0) {
                assert(t.subrange(0, 4)[1] == 'g');
            }
        }
        assert(t.subrange(0, 6) =~= quot_entity());
    } else if c == '\'' {
        assert(t[1] == 'a' && t[2] == 'p');
        assert(!matches_at(t, amp_entity(), 0)) by {
            if matches_at(t, amp_entity(), 0) {
                assert(t.subrange(0, 5)[2] == 'm');
            }
        }
        assert(!matches_at(t, lt_entity(), 0)) by {
            if matches_at(t, lt_entity(), 0) {
                assert(t.subrange(0, 4)[1] == 'l');
            }
        }
        assert(!matches_at(t, gt_entity(), 0)) by {
            if matches_at(t, gt_entity(), 0) {
                assert(t.subrange(0, 4)[1] == 'g');
            }
        }
        assert(!matches_at(t, quot_entity(), 0)) by {
            if matches_at(t, quot_entity(), 0) {
                assert(t.subrange(0, 6)[1] == 'q');
            }
        }
        assert(t.subrange(0, 6) =~= apos_entity());
    } else {
        assert(t[0] == c);
        assert(!matches_at(t, amp_entity(), 0)) by {
            if matches_at(t, amp_entity(), 0) {
                assert(t.subrange(0, 5)[0] == '&');
            }
        }
        assert(!matches_at(t, lt_entity(), 0)) by {
            if matches_at(t, lt_entity(), 0) {
                assert(t.subrange(0, 4)[0] == '&');
            }
        }
        assert(!matches_at(t, gt_entity(), 0)) by {
            if matches_at(t, gt_entity(), 0) {
                assert(t.subrange(0, 4)[0] == '&');
            }
        }
        assert(!matches_at(t, quot_entity(), 0)) by {
            if matches_at(t, quot_entity(), 0) {
                assert(t.subrange(0, 6)[0] == '&');
            }
        }
        assert(!matches_at(t, apos_entity(), 0)) by {
            if matches_at(t, apos_entity(), 0) {
                assert(t.subrange(0, 6)[0] == '&');
            }
        }
    }
}

/// Reading the entities back gives the text that was escaped.
pub proof fn lemma_xml_escape_round_trip(s: Seq<char>)
    ensures
        xml_unescaped(xml_escaped(s)) == s,
    decreases s.len(),
{
    if s.len() == 0 {
        assert(xml_escaped(s) =~= Seq::<char>::empty());
    } else {
        lemma_escaped_first(s);
        lemma_xml_escape_round_trip(s.drop_first());
        lemma_unescape_char(s[0], xml_escaped(s.drop_first()));
        assert(seq![s[0]] + s.drop_first() =~= s);
    }
}

/// Every `&` of escaped text starts one of the five entities.
pub proof fn lemma_xml_escaped_ampersands_are_entities(s: Seq<char>)
    ensures
        forall|k: int| 0 <= k < xml_escaped(s).len() && #[trigger] xml_escaped(s)[k] == '&' ==> entity_at(
            xml_escaped(s),
            k,
        ),
    decreases s.len(),
{
    if s.len() > 0 {
        lemma_xml_escaped_ampersands_are_entities(s.drop_last());
        let a = xml_escaped(s.drop_last());
        let c = s.last();
        let b = xml_escape_char(c);
        let t = xml_escaped(s);
        assert(t == a + b);
        assert forall|k: int| 0 <= k < t.len() && #[trigger] t[k] == '&' implies entity_at(t, k) by {
            if k < a.len() {
                assert(t[k] == a[k]);
                assert(entity_at(a, k));
                assert(matches_at(a, amp_entity(), k) ==> t.subrange(k, k + 5) =~= a.subrange(k, k + 5));
                assert(matches_at(a, lt_entity(), k) ==> t.subrange(k, k + 4) =~= a.subrange(k, k + 4));
                assert(matches_at(a, gt_entity(), k) ==> t.subrange(k, k + 4) =~= a.subrange(k, k + 4));
                assert(matches_at(a, quot_entity(), k) ==> t.subrange(k, k + 6) =~= a.subrange(k, k + 6));
                assert(matches_at(a, apos_entity(), k) ==> t.subrange(k, k + 6) =~= a.subrange(k, k + 6));
            } else {
                assert(t[k] == b[k - a.len()]);
                assert(k == a.len());
                let n = a.len() as int;
                if c == '&' {
                    assert(t.subrange(n, n + 5) =~= amp_entity());
                } else if c == '<' {
                    assert(t.subrange(n, n + 4) =~= lt_entity());
                } else if c == '>' {
                    assert(t.subrange(n, n + 4) =~= gt_entity());
                } else if c == '"' {
                    assert(t.subrange(n, n + 6) =~= quot_entity());
                } else {
                    assert(t.subrange(n, n + 6) =~= apos_entity());
                }
            }
        }
    }
}


pub const XML_OK_HEAD: &'static str = "<?xml version=\"1.0\" encoding=\"UTF-8\"?>\n\
<ValidacionSimilitud xmlns=\"Nucleo\">\n\
  <Estado>SUCCESS</Estado>\n\
  <Mensaje>Validacion completada</Mensaje>\n\
  <Resultado>\n\
    <CumpleValidacion>";
pub const XML_OK_THRESHOLD: &'static str = "</CumpleValidacion>\n\
    <UmbralConfigurado>";
pub const XML_OK_REWRITE1: &'static str = "</UmbralConfigurado>\n\
    <Comparaciones/>\n\
    <Recomendaciones>\n\
      <Mensaje1Reescrito>";
pub const XML_OK_REWRITE2: &'static str = "</Mensaje1Reescrito>\n\
      <Mensaje2Reescrito>";
pub const XML_OK_REWRITE3: &'static str = "</Mensaje2Reescrito>\n\
      <Mensaje3Reescrito>";
pub const XML_OK_SIM12: &'static str = "</Mensaje3Reescrito>\n\
      <SimilitudesNuevas>\n\
        <Similitud1vs2>";
pub const XML_OK_SIM13: &'static str = "</Similitud1vs2>\n\
        <Similitud1vs3>";
pub const XML_OK_SIM23: &'static str = "</Similitud1vs3>\n\
        <Similitud2vs3>";
pub const XML_OK_TAIL: &'static str = "</Similitud2vs3>\n\
      </SimilitudesNuevas>\n\
    </Recomendaciones>\n\
  </Resultado>\n\
</ValidacionSimilitud>";
pub const XML_ERROR_HEAD: &'static str = "<?xml version=\"1.0\" encoding=\"UTF-8\"?>\n\
<ValidacionSimilitud xmlns=\"Nucleo\">\
<Estado>ERROR</Estado>\
<Mensaje>";
pub const XML_ERROR_TAIL: &'static str = "</Mensaje>\
</ValidacionSimilitud>";

/// `"true"` or `"false"`.
pub open spec fn bool_text(b: bool) -> Seq<char> {
    if b {
        "true"@
    } else {
        "false"@
    }
}

/// The success document: verdict, configured threshold, the three
/// (escaped) rewritten messages and the three similarities, the numbers
/// given already printed.
pub open spec fn validation_xml(
    cumple: bool,
    umbral: Seq<char>,
    sim_12: Seq<char>,
    sim_13: Seq<char>,
    sim_23: Seq<char>,
    r1: Seq<char>,
    r2: Seq<char>,
    r3: Seq<char>,
) -> Seq<char> {
    XML_OK_HEAD@ + bool_text(cumple) + XML_OK_THRESHOLD@ + umbral + XML_OK_REWRITE1@ + xml_escaped(r1)
        + XML_OK_REWRITE2@ + xml_escaped(r2) + XML_OK_REWRITE3@ + xml_escaped(r3) + XML_OK_SIM12@
        + sim_12 + XML_OK_SIM13@ + sim_13 + XML_OK_SIM23@ + sim_23 + XML_OK_TAIL@
}

/// The error document carrying the escaped message.
pub open spec fn error_xml_text(msg: Seq<char>) -> Seq<char> {
    XML_ERROR_HEAD@ + xml_escaped(msg) + XML_ERROR_TAIL@
}

/// Builds the success document. The threshold is printed with no decimals
/// and the similarities with one decimal by the caller; a missing set of
/// recommendations prints three empty messages.
pub fn build_xml(
    umbral: &str,
    sim_12: &str,
    sim_13: &str,
    sim_23: &str,
    cumple_all: bool,
    recomendaciones: Option<&(String, String, String)>,
) -> (xml: String)
    ensures
        xml@ == (match recomendaciones {
            Some(r) => validation_xml(cumple_all, umbral@, sim_12@, sim_13@, sim_23@, r.0@, r.1@, r.2@),
            None => validation_xml(
                cumple_all,
                umbral@,
                sim_12@,
                sim_13@,
                sim_23@,
                Seq::empty(),
                Seq::empty(),
                Seq::empty(),
            ),
        }),
{
    let (e1, e2, e3) = match recomendaciones {
        Some(r) => (xml_escape(r.0.as_str()), xml_escape(r.1.as_str()), xml_escape(r.2.as_str())),
        None => {
            let e = xml_escape("");
            proof {
                assert(""@.len() == 0) by {
                    reveal_strlit("");
                }
                assert(""@ =~= Seq::<char>::empty());
            }
            (e.clone(), e.clone(), e)
        },
    };
    let mut out = String::new();
    out.append(XML_OK_HEAD);
    if cumple_all {
        out.append("true");
    } else {
        out.append("false");
    }
    out.append(XML_OK_THRESHOLD);
    out.append(umbral);
    out.append(XML_OK_REWRITE1);
    out.append(e1.as_str());
    out.append(XML_OK_REWRITE2);
    out.append(e2.as_str());
    out.append(XML_OK_REWRITE3);
    out.append(e3.as_str());
    out.append(XML_OK_SIM12);
    out.append(sim_12);
    out.append(XML_OK_SIM13);
    out.append(sim_13);
    out.append(XML_OK_SIM23);
    out.append(sim_23);
    out.append(XML_OK_TAIL);
    out
}

/// The error document for `msg`.
pub fn error_xml(msg: &str) -> (xml: String)
    ensures
        xml@ == error_xml_text(msg@),
{
    let e = xml_escape(msg);
    let mut out = String::new();
    out.append(XML_ERROR_HEAD);
    out.append(e.as_str());
    out.append(XML_ERROR_TAIL);
    out
}


pub const FILL_PROMPT_HEAD: &'static str = "Genera ";
pub const FILL_PROMPT_BODY: &'static str = " mensaje(s) de marketing para WhatsApp con diversidad léxica. \
        REGLAS IMPORTANTES: \
        1) El sistema ya antepone automáticamente un saludo y el nombre del socio, por lo que el mensaje \
        NO debe comenzar con ningún saludo ni referencia al destinatario (nada de 'Estimado socio', \
        'Hola socio', 'Le informamos', ni similares al inicio). Comenzá directamente con el contenido. \
        2) Si dentro del cuerpo del mensaje necesitás referirte al destinatario, usá siempre 'socio' \
        (nunca cliente, miembro u otro término), porque es una cooperativa. \
        Mensajes existentes: ";
pub const FILL_PROMPT_TAIL: &'static str = ". \
        Devuelve SOLO los mensajes faltantes, uno por línea, sin numeración ni explicaciones.";
pub const EXISTING_SEPARATOR: &'static str = " | ";

pub const REWRITE_PROMPT_HEAD: &'static str = "Reescribe los siguientes 3 mensajes de marketing para WhatsApp de manera que la \
        similitud léxica entre cualquier par sea menor al ";
pub const REWRITE_PROMPT_BODY: &'static str = "%. \
        Mantén el mismo tema y tono pero usa vocabulario y estructura muy diferentes. \
        REGLAS IMPORTANTES: \
        1) El sistema ya antepone automáticamente un saludo y el nombre del socio, por lo que cada mensaje \
        NO debe comenzar con ningún saludo ni referencia al destinatario (nada de 'Estimado socio', \
        'Hola socio', 'Le informamos', ni similares al inicio). Comenzá directamente con el contenido. \
        2) Si dentro del cuerpo del mensaje necesitás referirte al destinatario, usá siempre 'socio' \
        (nunca cliente, miembro u otro término), porque es una cooperativa. \
        Mensajes originales:\n1. ";
pub const REWRITE_PROMPT_SECOND: &'static str = "\n2. ";
pub const REWRITE_PROMPT_THIRD: &'static str = "\n3. ";
pub const REWRITE_PROMPT_TAIL: &'static str = "\n\
        Devuelve EXACTAMENTE 3 mensajes, uno por línea, sin numeración ni explicaciones.";

pub const DEFAULT_MESSAGE_1: &'static str = "Mensaje 1";
pub const DEFAULT_MESSAGE_2: &'static str = "Mensaje 2";
pub const DEFAULT_MESSAGE_3: &'static str = "Mensaje 3";

/// `1` when `m` is empty, else `0`.
pub open spec fn empty_count(m: Seq<char>) -> nat {
    if m.len() == 0 {
        1
    } else {
        0
    }
}

/// How many of the three messages are empty.
pub open spec fn missing_messages(m1: Seq<char>, m2: Seq<char>, m3: Seq<char>) -> nat {
    empty_count(m1) + empty_count(m2) + empty_count(m3)
}

/// The non-empty messages, in order.
pub open spec fn existing_messages(m1: Seq<char>, m2: Seq<char>, m3: Seq<char>) -> Seq<Seq<char>> {
    (if m1.len() > 0 { seq![m1] } else { Seq::empty() }) + (if m2.len() > 0 {
        seq![m2]
    } else {
        Seq::empty()
    }) + (if m3.len() > 0 { seq![m3] } else { Seq::empty() })
}

/// The items joined with `sep` between consecutive ones (`[T]::join`).
pub open spec fn join_with(items: Seq<Seq<char>>, sep: Seq<char>) -> Seq<char>
    decreases items.len(),
{
    if items.len() == 0 {
        Seq::empty()
    } else if items.len() == 1 {
        items[0]
    } else {
        join_with(items.drop_last(), sep) + sep + items.last()
    }
}

/// The request for the missing messages: how many are missing and the
/// existing ones joined with `" | "`.
pub open spec fn fill_prompt_text(m1: Seq<char>, m2: Seq<char>, m3: Seq<char>) -> Seq<char> {
    FILL_PROMPT_HEAD@ + decimal(missing_messages(m1, m2, m3)) + FILL_PROMPT_BODY@ + join_with(
        existing_messages(m1, m2, m3),
        EXISTING_SEPARATOR@,
    ) + FILL_PROMPT_TAIL@
}

/// The request to rewrite the three messages below the threshold (printed
/// by the caller with no decimals).
pub open spec fn rewrite_prompt_text(
    m1: Seq<char>,
    m2: Seq<char>,
    m3: Seq<char>,
    umbral: Seq<char>,
) -> Seq<char> {
    REWRITE_PROMPT_HEAD@ + umbral + REWRITE_PROMPT_BODY@ + m1 + REWRITE_PROMPT_SECOND@ + m2
        + REWRITE_PROMPT_THIRD@ + m3 + REWRITE_PROMPT_TAIL@
}

/// What to do before the three messages can be compared.
pub enum FillPlan {
    /// None is missing: compare them as they are.
    Ready,
    /// Some are missing and no API key is configured.
    MissingApiKey,
    /// Ask the completion service with this prompt.
    Ask(String),
}

/// Counts the empty messages.
pub fn missing_count(m1: &str, m2: &str, m3: &str) -> (n: usize)
    ensures
        n == missing_messages(m1@, m2@, m3@),
{
    let mut n: usize = 0;
    if m1.is_empty() {
        n = n + 1;
    }
    if m2.is_empty() {
        n = n + 1;
    }
    if m3.is_empty() {
        n = n + 1;
    }
    n
}

/// The prompt that asks for the missing messages.
pub fn fill_prompt(m1: &str, m2: &str, m3: &str) -> (prompt: String)
    ensures
        prompt@ == fill_prompt_text(m1@, m2@, m3@),
{
    let missing = missing_count(m1, m2, m3);
    let mut digits: Vec<char> = Vec::new();
    push_decimal(&mut digits, missing as u64);
    let count = string_of(digits.as_slice());
    let mut out = String::new();
    out.append(FILL_PROMPT_HEAD);
    out.append(count.as_str());
    out.append(FILL_PROMPT_BODY);
    let ghost before = out@;
    let ghost sep = EXISTING_SEPARATOR@;
    let mut count_done: usize = 0;
    let ghost mut done: Seq<Seq<char>> = Seq::empty();
    if !m1.is_empty() {
        out.append(m1);
        count_done = count_done + 1;
        proof {
            done = seq![m1@];
        }
    }
    assert(out@ == before + join_with(done, sep));
    if !m2.is_empty() {
        if count_done > 0 {
            out.append(EXISTING_SEPARATOR);
        }
        out.append(m2);
        proof {
            let nd = done.push(m2@);
            assert(nd.drop_last() =~= done);
            if done.len() == 0 {
                assert(join_with(nd, sep) == m2@);
            }
            done = nd;
        }
        count_done = count_done + 1;
    }
    assert(out@ =~= before + join_with(done, sep));
    if !m3.is_empty() {
        if count_done > 0 {
            out.append(EXISTING_SEPARATOR);
        }
        out.append(m3);
        proof {
            let nd = done.push(m3@);
            assert(nd.drop_last() =~= done);
            if done.len() == 0 {
                assert(join_with(nd, sep) == m3@);
            }
            done = nd;
        }
    }
    assert(done =~= existing_messages(m1@, m2@, m3@));
    out.append(FILL_PROMPT_TAIL);
    out
}

/// Decides whether the completion service is needed to fill empty messages.
pub fn fill_plan(m1: &str, m2: &str, m3: &str, api_key: &str) -> (plan: FillPlan)
    ensures
        missing_messages(m1@, m2@, m3@) == 0 ==> plan is Ready,
        missing_messages(m1@, m2@, m3@) > 0 && api_key@.len() == 0 ==> plan is MissingApiKey,
        missing_messages(m1@, m2@, m3@) > 0 && api_key@.len() > 0 ==> (plan matches FillPlan::Ask(p)
            && p@ == fill_prompt_text(m1@, m2@, m3@)),
{
    if missing_count(m1, m2, m3) == 0 {
        FillPlan::Ready
    } else if api_key.is_empty() {
        FillPlan::MissingApiKey
    } else {
        FillPlan::Ask(fill_prompt(m1, m2, m3))
    }
}


/// What the validation does once the three messages have been compared
/// with the threshold.
#[derive(PartialEq, Eq, Debug, Clone, Copy)]
pub enum RewriteDecision {
    /// Every pair is within the threshold: no recommendations.
    NoRecommendations,
    /// Ask the completion service to rewrite the messages.
    Rewrite,
    /// Recommend the messages as they are.
    RecommendUnchanged,
}

/// Decides the recommendations: none when every pair is within the
/// threshold; otherwise a rewrite when the threshold is at least 30 and an
/// API key is configured, else the messages unchanged.
pub fn rewrite_decision(all_within: bool, threshold_at_least_30: bool, api_key: &str) -> (d: RewriteDecision)
    ensures
        all_within ==> d == RewriteDecision::NoRecommendations,
        !all_within && threshold_at_least_30 && api_key@.len() > 0 ==> d == RewriteDecision::Rewrite,
        !all_within && !(threshold_at_least_30 && api_key@.len() > 0) ==> d
            == RewriteDecision::RecommendUnchanged,
{
    if all_within {
        RewriteDecision::NoRecommendations
    } else if threshold_at_least_30 && !api_key.is_empty() {
        RewriteDecision::Rewrite
    } else {
        RewriteDecision::RecommendUnchanged
    }
}

/// Whether the validation passes: every pair of the given messages is within
/// the threshold, or every pair of the suggested replacements is.
pub fn final_verdict(all_within: bool, recommended_within: Option<bool>) -> (pass: bool)
    ensures
        pass == (all_within || recommended_within == Some(true)),
{
    match recommended_within {
        Some(b) => all_within || b,
        None => all_within,
    }
}

/// A message slot after the fill: a present message stays; an empty one
/// takes reply line `idx` when there is one, else the trimmed default.
pub open spec fn filled_slot(m: Seq<char>, lines: Seq<Seq<char>>, idx: int, default: Seq<char>) -> Seq<char> {
    if m.len() > 0 {
        m
    } else if idx < lines.len() {
        lines[idx]
    } else {
        trim(default)
    }
}

/// The three messages once the empty ones have taken, in order, the
/// non-blank trimmed lines of the reply.
pub open spec fn filled_messages(
    m1: Seq<char>,
    m2: Seq<char>,
    m3: Seq<char>,
    reply: Seq<char>,
) -> (Seq<char>, Seq<char>, Seq<char>) {
    let ls = nonblank_trimmed(str_lines(reply));
    (
        filled_slot(m1, ls, 0, DEFAULT_MESSAGE_1@),
        filled_slot(m2, ls, empty_count(m1) as int, DEFAULT_MESSAGE_2@),
        filled_slot(m3, ls, (empty_count(m1) + empty_count(m2)) as int, DEFAULT_MESSAGE_3@),
    )
}

/// The three rewritten messages: the first three non-blank lines of the
/// reply, trimmed; the message as given, trimmed, where the reply is short.
pub open spec fn rewritten_messages(
    m1: Seq<char>,
    m2: Seq<char>,
    m3: Seq<char>,
    reply: Seq<char>,
) -> (Seq<char>, Seq<char>, Seq<char>) {
    let ls = nonblank_trimmed(str_lines(reply));
    (
        if 0 < ls.len() { ls[0] } else { trim(m1) },
        if 1 < ls.len() { ls[1] } else { trim(m2) },
        if 2 < ls.len() { ls[2] } else { trim(m3) },
    )
}

fn trimmed_string(s: &str) -> (r: String)
    ensures
        r@ == trim(s@),
{
    let cs = chars_of(s);
    let t = trim_chars(cs.as_slice());
    string_of(t.as_slice())
}

fn fill_one(m: &str, lines: &Vec<Vec<char>>, idx: usize, default: &str) -> (r: String)
    ensures
        r@ == filled_slot(m@, lines@.map_values(|l: Vec<char>| l@), idx as int, default@),
{
    if !m.is_empty() {
        m.to_owned()
    } else if idx < lines.len() {
        string_of(lines[idx].as_slice())
    } else {
        trimmed_string(default)
    }
}

/// Fills the empty messages from the completion reply, one non-blank line
/// each, in order.
pub fn fill_from_reply(m1: &str, m2: &str, m3: &str, reply: &str) -> (filled: (String, String, String))
    ensures
        (filled.0@, filled.1@, filled.2@) == filled_messages(m1@, m2@, m3@, reply@),
{
    let rc = chars_of(reply);
    let lines = nonblank_lines(rc.as_slice());
    let i2: usize = if m1.is_empty() { 1 } else { 0 };
    let i3: usize = i2 + if m2.is_empty() { 1 } else { 0 };
    let r1 = fill_one(m1, &lines, 0, DEFAULT_MESSAGE_1);
    let r2 = fill_one(m2, &lines, i2, DEFAULT_MESSAGE_2);
    let r3 = fill_one(m3, &lines, i3, DEFAULT_MESSAGE_3);
    (r1, r2, r3)
}

/// The prompt that asks to rewrite the three messages.
pub fn rewrite_prompt(m1: &str, m2: &str, m3: &str, umbral: &str) -> (prompt: String)
    ensures
        prompt@ == rewrite_prompt_text(m1@, m2@, m3@, umbral@),
{
    let mut out = String::new();
    out.append(REWRITE_PROMPT_HEAD);
    out.append(umbral);
    out.append(REWRITE_PROMPT_BODY);
    out.append(m1);
    out.append(REWRITE_PROMPT_SECOND);
    out.append(m2);
    out.append(REWRITE_PROMPT_THIRD);
    out.append(m3);
    out.append(REWRITE_PROMPT_TAIL);
    out
}

fn rewrite_one(m: &str, lines: &Vec<Vec<char>>, idx: usize) -> (r: String)
    ensures
        r@ == (if (idx as int) < lines@.len() { lines@[idx as int]@ } else { trim(m@) }),
{
    if idx < lines.len() {
        string_of(lines[idx].as_slice())
    } else {
        trimmed_string(m)
    }
}

/// Reads the three rewritten messages from the completion reply.
pub fn rewrite_from_reply(m1: &str, m2: &str, m3: &str, reply: &str) -> (rewritten: (String, String, String))
    ensures
        (rewritten.0@, rewritten.1@, rewritten.2@) == rewritten_messages(m1@, m2@, m3@, reply@),
{
    let rc = chars_of(reply);
    let lines = nonblank_lines(rc.as_slice());
    let ghost ls = lines@.map_values(|l: Vec<char>| l@);
    let r1 = rewrite_one(m1, &lines, 0);
    let r2 = rewrite_one(m2, &lines, 1);
    let r3 = rewrite_one(m3, &lines, 2);
    proof {
        assert(ls.len() == lines@.len());
        if 0 < ls.len() {
            assert(ls[0] == lines@[0]@);
        }
        if 1 < ls.len() {
            assert(ls[1] == lines@[1]@);
        }
        if 2 < ls.len() {
            assert(ls[2] == lines@[2]@);
        }
    }
    (r1, r2, r3)
}


/// Filling takes the non-blank trimmed lines of the reply, in order, into
/// the empty messages, in order: the first empty message gets the first
/// line, the second empty one the second, the third the third; a message
/// that is present is kept; an empty message for which the reply has no
/// line left gets its trimmed default.
pub proof fn lemma_fill_takes_reply_lines_in_order(m1: Seq<char>, m2: Seq<char>, m3: Seq<char>, reply: Seq<char>)
    ensures
        m1.len() > 0 ==> filled_messages(m1, m2, m3, reply).0 == m1,
        m2.len() > 0 ==> filled_messages(m1, m2, m3, reply).1 == m2,
        m3.len() > 0 ==> filled_messages(m1, m2, m3, reply).2 == m3,
        ({
            let ls = nonblank_trimmed(str_lines(reply));
            let r = filled_messages(m1, m2, m3, reply);
            &&& (m1.len() == 0 && ls.len() > 0 ==> r.0 == ls[0])
            &&& (m1.len() > 0 && m2.len() == 0 && ls.len() > 0 ==> r.1 == ls[0])
            &&& (m1.len() == 0 && m2.len() == 0 && ls.len() > 1 ==> r.1 == ls[1])
            &&& (m1.len() > 0 && m2.len() > 0 && m3.len() == 0 && ls.len() > 0 ==> r.2 == ls[0])
            &&& (m1.len() == 0 && m2.len() > 0 && m3.len() == 0 && ls.len() > 1 ==> r.2 == ls[1])
            &&& (m1.len() > 0 && m2.len() == 0 && m3.len() == 0 && ls.len() > 1 ==> r.2 == ls[1])
            &&& (m1.len() == 0 && m2.len() == 0 && m3.len() == 0 && ls.len() > 2 ==> r.2 == ls[2])
            &&& (m1.len() == 0 && ls.len() == 0 ==> r.0 == trim(DEFAULT_MESSAGE_1@))
            &&& (m1.len() > 0 && m2.len() == 0 && ls.len() == 0 ==> r.1 == trim(DEFAULT_MESSAGE_2@))
            &&& (m1.len() == 0 && m2.len() == 0 && ls.len() <= 1 ==> r.1 == trim(DEFAULT_MESSAGE_2@))
            &&& (m1.len() > 0 && m2.len() > 0 && m3.len() == 0 && ls.len() == 0 ==> r.2 == trim(DEFAULT_MESSAGE_3@))
            &&& (m1.len() == 0 && m2.len() == 0 && m3.len() == 0 && ls.len() <= 2 ==> r.2 == trim(DEFAULT_MESSAGE_3@))
        }),
{
}

} // verus!
