//! Phone number clean-up and E.164 normalisation, on top of the
//! `phonenumber` crate's parser, validator and formatter.

use vstd::prelude::*;
use vstd::string::*;
use crate::text::{chars_of, string_of, trim, trim_chars};

verus! {

#[verifier::external_type_specification]
#[verifier::external_body]
pub struct ExPhoneNumber(phonenumber::PhoneNumber);

/// Whether `phonenumber::parse(None, text)` succeeds.
pub uninterp spec fn phone_parses(text: Seq<char>) -> bool;

/// Whether `phonenumber::is_valid` accepts the number parsed from `text`.
pub uninterp spec fn phone_valid(text: Seq<char>) -> bool;

/// The E.164 rendering of the number parsed from `text`.
pub uninterp spec fn phone_e164(text: Seq<char>) -> Seq<char>;

/// A number parsed by `phonenumber`, together with the text it came from.
pub struct ParsedPhone {
    number: phonenumber::PhoneNumber,
    source: Ghost<Seq<char>>,
}

impl View for ParsedPhone {
    type V = Seq<char>;

    closed spec fn view(&self) -> Seq<char> {
        self.source@
    }
}

/// Trusted: `phonenumber::parse(None, text)`, with no default region.
/// Claims only that success depends on the text alone; the number it
/// yields is remembered together with that text.
#[verifier::external_body]
fn parse_phone(text: &str) -> (r: Option<ParsedPhone>)
    ensures
        r is Some == phone_parses(text@),
        r matches Some(p) ==> p@ == text@,
{
    match phonenumber::parse(None, text) {
        Ok(number) => Some(ParsedPhone { number, source: Ghost(text@) }),
        Err(_) => None,
    }
}

/// Trusted: `phonenumber::is_valid` on a parsed number. Claims only that the
/// answer depends on the parsed text alone.
#[verifier::external_body]
fn phone_is_valid(p: &ParsedPhone) -> (b: bool)
    ensures
        b == phone_valid(p@),
{
    phonenumber::is_valid(&p.number)
}

/// Trusted: `PhoneNumber::format().mode(Mode::E164).to_string()`. For a
/// valid number the formatter writes `+`, the country code and the national
/// number, all decimal digits; metadata exists for a valid number's country
/// code, so the formatter does not fail (it would panic in `to_string`).
#[verifier::external_body]
fn phone_format_e164(p: &ParsedPhone) -> (s: String)
    requires
        phone_valid(p@),
    ensures
        s@ == phone_e164(p@),
        s@.len() >= 2,
        s@[0] == '+',
        forall|k: int| 1 <= k < s@.len() ==> '0' <= #[trigger] s@[k] <= '9',
{
    p.number.format().mode(phonenumber::Mode::E164).to_string()
}

/// The part of `s` before its first `'@'` (all of `s` when it has none).
pub open spec fn before_at(s: Seq<char>) -> Seq<char>
    decreases s.len(),
{
    if s.len() == 0 {
        s
    } else if s[0] == '@' {
        Seq::empty()
    } else {
        seq![s[0]] + before_at(s.drop_first())
    }
}

/// A character kept when cleaning a phone number: an ASCII digit or `+`.
pub open spec fn is_phone_char(c: char) -> bool {
    ('0' <= c && c <= '9') || c == '+'
}

/// `s` with every character but digits and `+` removed.
pub open spec fn phone_chars(s: Seq<char>) -> Seq<char>
    decreases s.len(),
{
    if s.len() == 0 {
        s
    } else if is_phone_char(s.last()) {
        phone_chars(s.drop_last()).push(s.last())
    } else {
        phone_chars(s.drop_last())
    }
}

/// The cleaned number: trimmed, cut at `'@'`, trimmed again, digits and `+` kept.
pub open spec fn cleaned_phone(raw: Seq<char>) -> Seq<char> {
    phone_chars(trim(before_at(trim(raw))))
}

/// The text handed to the parser: the cleaned number, with `+` in front
/// when it does not start with one.
pub open spec fn phone_parse_text(raw: Seq<char>) -> Seq<char> {
    let c = cleaned_phone(raw);
    if c.len() > 0 && c[0] == '+' {
        c
    } else {
        seq!['+'] + c
    }
}

/// The E.164 form of a raw phone number, when it has one.
pub open spec fn normalized_phone(raw: Seq<char>) -> Option<Seq<char>> {
    let t = phone_parse_text(raw);
    if cleaned_phone(raw).len() == 0 || !phone_parses(t) || !phone_valid(t) {
        None
    } else {
        Some(phone_e164(t))
    }
}

/// An E.164 rendering: `+` followed by at least one decimal digit.
pub open spec fn e164_shaped(s: Seq<char>) -> bool {
    &&& s.len() >= 2
    &&& s[0] == '+'
    &&& forall|k: int| 1 <= k < s.len() ==> '0' <= #[trigger] s[k] <= '9'
}

/// `s` without its leading `+` signs (`trim_start_matches('+')`).
pub open spec fn drop_leading_plus(s: Seq<char>) -> Seq<char>
    decreases s.len(),
{
    if s.len() > 0 && s[0] == '+' {
        drop_leading_plus(s.drop_first())
    } else {
        s
    }
}

/// Why a raw number was refused.
#[derive(PartialEq, Eq, Debug, Clone, Copy)]
pub enum PhoneError {
    /// Nothing left after cleaning.
    Empty,
    /// The parser does not recognise the number.
    Unparseable,
    /// The number parsed but is not valid.
    Invalid,
}

/// The WhatsApp user id suffix `@c.us`.
pub open spec fn jid_suffix() -> Seq<char> {
    seq!['@', 'c', '.', 'u', 's']
}

/// What `format_phone` gives for a raw number.
pub open spec fn formatted_phone(raw: Seq<char>) -> Result<Seq<char>, PhoneError> {
    let t = phone_parse_text(raw);
    if cleaned_phone(raw).len() == 0 {
        Err(PhoneError::Empty)
    } else if !phone_parses(t) {
        Err(PhoneError::Unparseable)
    } else if !phone_valid(t) {
        Err(PhoneError::Invalid)
    } else {
        Ok(drop_leading_plus(phone_e164(t)) + jid_suffix())
    }
}

proof fn lemma_before_at_prefix(s: Seq<char>, i: int)
    requires
        0 <= i <= s.len(),
        forall|k: int| 0 <= k < i ==> s[k] != '@',
        i == s.len() || s[i] == '@',
    ensures
        before_at(s) =~= s.subrange(0, i),
    decreases s.len(),
{
    if s.len() > 0 && s[0] != '@' {
        lemma_before_at_prefix(s.drop_first(), i - 1);
    }
}

/// The cleaned number and the parser input built from it.
fn parse_text_of(raw: &str) -> (r: (Vec<char>, bool))
    ensures
        r.0@ == phone_parse_text(raw@),
        r.1 == (cleaned_phone(raw@).len() == 0),
{
    let rc = chars_of(raw);
    let t1 = trim_chars(rc.as_slice());
    let mut i: usize = 0;
    while i < t1.len() && t1[i] != '@'
        invariant
            i <= t1@.len(),
            forall|k: int| 0 <= k < i ==> t1@[k] != '@',
        decreases t1@.len() - i,
    {
        i = i + 1;
    }
    let mut head: Vec<char> = Vec::new();
    let mut k: usize = 0;
    while k < i
        invariant
            k <= i <= t1@.len(),
            head@ =~= t1@.subrange(0, k as int),
        decreases i - k,
    {
        head.push(t1[k]);
        k = k + 1;
    }
    proof {
        lemma_before_at_prefix(t1@, i as int);
    }
    let t2 = trim_chars(head.as_slice());
    let mut c: Vec<char> = Vec::new();
    let mut j: usize = 0;
    while j < t2.len()
        invariant
            j <= t2@.len(),
            c@ == phone_chars(t2@.subrange(0, j as int)),
        decreases t2@.len() - j,
    {
        let ch = t2[j];
        proof {
            let pre = t2@.subrange(0, j + 1);
            assert(pre.drop_last() =~= t2@.subrange(0, j as int));
            assert(pre.last() == ch);
        }
        if ('0' <= ch && ch <= '9') || ch == '+' {
            c.push(ch);
        }
        j = j + 1;
    }
    proof {
        assert(t2@.subrange(0, t2@.len() as int) =~= t2@);
    }
    let empty = c.len() == 0;
    if c.len() > 0 && c[0] == '+' {
        (c, empty)
    } else {
        let mut r: Vec<char> = vec!['+'];
        let mut m: usize = 0;
        while m < c.len()
            invariant
                m <= c@.len(),
                r@ =~= seq!['+'] + c@.subrange(0, m as int),
            decreases c@.len() - m,
        {
            r.push(c[m]);
            m = m + 1;
        }
        proof {
            assert(c@.subrange(0, c@.len() as int) =~= c@);
        }
        (r, empty)
    }
}

/// Normalises a raw number to E.164 (`+` and digits), or `None` when it is
/// empty after cleaning, does not parse or is not a valid number.
pub fn normalize_phone(raw: &str) -> (r: Option<String>)
    ensures
        r matches Some(s) ==> normalized_phone(raw@) == Some(s@) && e164_shaped(s@),
        r is None ==> normalized_phone(raw@) is None,
{
    let (t, empty) = parse_text_of(raw);
    if empty {
        return None;
    }
    let text = string_of(t.as_slice());
    match parse_phone(text.as_str()) {
        None => None,
        Some(p) => {
            if phone_is_valid(&p) {
                Some(phone_format_e164(&p))
            } else {
                None
            }
        },
    }
}

/// Formats a raw number as a WhatsApp user id: the E.164 digits followed by
/// `@c.us`.
pub fn format_phone(raw: &str) -> (r: Result<String, PhoneError>)
    ensures
        match r {
            Ok(s) => formatted_phone(raw@) == Ok::<Seq<char>, PhoneError>(s@),
            Err(e) => formatted_phone(raw@) == Err::<Seq<char>, PhoneError>(e),
        },
        r is Ok ==> e164_shaped(phone_e164(phone_parse_text(raw@))),
{
    let (t, empty) = parse_text_of(raw);
    if empty {
        return Err(PhoneError::Empty);
    }
    let text = string_of(t.as_slice());
    let p = match parse_phone(text.as_str()) {
        None => {
            return Err(PhoneError::Unparseable);
        },
        Some(p) => p,
    };
    if !phone_is_valid(&p) {
        return Err(PhoneError::Invalid);
    }
    let e164 = phone_format_e164(&p);
    let ec = chars_of(e164.as_str());
    let mut i: usize = 0;
    assert(ec@.subrange(0, ec@.len() as int) =~= ec@);
    while i < ec.len() && ec[i] == '+'
        invariant
            i <= ec@.len(),
            drop_leading_plus(ec@) == drop_leading_plus(ec@.subrange(i as int, ec@.len() as int)),
        decreases ec@.len() - i,
    {
        proof {
            let rest = ec@.subrange(i as int, ec@.len() as int);
            assert(rest.drop_first() =~= ec@.subrange(i + 1, ec@.len() as int));
        }
        i = i + 1;
    }
    let mut out: Vec<char> = Vec::new();
    let mut k: usize = i;
    while k < ec.len()
        invariant
            i <= k <= ec@.len(),
            out@ =~= ec@.subrange(i as int, k as int),
        decreases ec@.len() - k,
    {
        out.push(ec[k]);
        k = k + 1;
    }
    proof {
        assert(ec@.subrange(0, ec@.len() as int) =~= ec@);
        let rest = ec@.subrange(i as int, ec@.len() as int);
        assert(rest.len() == 0 || rest[0] != '+');
        assert(drop_leading_plus(rest) == rest);
    }
    let ghost digits = out@;
    out.push('@');
    out.push('c');
    out.push('.');
    out.push('u');
    out.push('s');
    assert(out@ =~= digits + jid_suffix());
    assert(digits == drop_leading_plus(phone_e164(text@)));
    Ok(string_of(out.as_slice()))
}


/// A number formats as a WhatsApp user id exactly when it normalises, and
/// the user id is then the normalised number without its `+`, followed by
/// `@c.us`.
pub proof fn lemma_format_agrees_with_normalize(raw: Seq<char>)
    ensures
        formatted_phone(raw) is Ok <==> normalized_phone(raw) is Some,
        normalized_phone(raw) matches Some(e) ==> formatted_phone(raw) == Ok::<Seq<char>, PhoneError>(
            drop_leading_plus(e) + jid_suffix(),
        ),
{
}

} // verus!
