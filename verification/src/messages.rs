//! Campaign sending: which message variant each recipient gets, the
//! contact entry registered for a recipient, delivery status, retries and
//! the pause between messages.

use vstd::prelude::*;
use vstd::string::*;
use crate::oracle::MsgRow;
use crate::session::SessionStatus;
use crate::phone::{
    drop_leading_plus, e164_shaped, formatted_phone, format_phone, jid_suffix, normalized_phone,
    PhoneError,
};
use crate::text::{chars_of, decimal, push_decimal, push_decimal_padded, string_of, zero_padded};

verus! {

/// Bytes of an optional image.
pub open spec fn opt_bytes(o: Option<Vec<u8>>) -> Option<Seq<u8>> {
    match o {
        Some(v) => Some(v@),
        None => None,
    }
}

/// The image that goes with a variant: present only when its flag is 1.
pub open spec fn flagged_image(chk: i32, img: Option<Vec<u8>>) -> Option<Seq<u8>> {
    if chk == 1 {
        opt_bytes(img)
    } else {
        None
    }
}

/// An alternative message, falling back to the first one.
pub open spec fn variant_text(alt: Option<String>, msg: String) -> Seq<char> {
    match alt {
        Some(s) => s@,
        None => msg@,
    }
}

/// The text and image a recipient gets, and the turn after it.
///
/// The turn persists across the batch so that successive recipients get
/// the next enabled variant (first, second, third, first, ...). When
/// neither the second nor the third variant is enabled, the first one is
/// always used and the turn stays as it was.
pub open spec fn picked(row: MsgRow, turno: u8) -> (Seq<char>, Option<Seq<u8>>, u8) {
    if row.msg2_chk != 1 && row.msg3_chk != 1 {
        (row.msg@, flagged_image(row.img1_chk, row.img1), turno)
    } else if turno == 0 {
        (row.msg@, flagged_image(row.img1_chk, row.img1), 1)
    } else if turno == 1 {
        if row.msg2_chk == 1 {
            (
                variant_text(row.msg2, row.msg),
                flagged_image(row.img2_chk, row.img2),
                if row.msg3_chk == 1 { 2 } else { 0 },
            )
        } else {
            (variant_text(row.msg3, row.msg), flagged_image(row.img3_chk, row.img3), 0)
        }
    } else {
        (variant_text(row.msg3, row.msg), flagged_image(row.img3_chk, row.img3), 0)
    }
}

fn copy_bytes(v: &Vec<u8>) -> (r: Vec<u8>)
    ensures
        r@ == v@,
{
    let mut r: Vec<u8> = Vec::new();
    let mut i: usize = 0;
    while i < v.len()
        invariant
            i <= v@.len(),
            r@ =~= v@.subrange(0, i as int),
        decreases v@.len() - i,
    {
        r.push(v[i]);
        i = i + 1;
    }
    r
}

fn image_if(chk: i32, img: &Option<Vec<u8>>) -> (r: Option<Vec<u8>>)
    ensures
        opt_bytes(r) == flagged_image(chk, *img),
{
    if chk == 1 {
        match img {
            Some(v) => Some(copy_bytes(v)),
            None => None,
        }
    } else {
        None
    }
}

fn text_or_first(alt: &Option<String>, msg: &String) -> (r: String)
    ensures
        r@ == variant_text(*alt, *msg),
{
    match alt {
        Some(s) => s.clone(),
        None => msg.clone(),
    }
}

/// Picks the message variant (and image) for a recipient and advances the turn.
pub fn pick_content(row: &MsgRow, turno: &mut u8) -> (content: (String, Option<Vec<u8>>))
    ensures
        (content.0@, opt_bytes(content.1), *final(turno)) == picked(*row, *old(turno)),
{
    if row.msg2_chk != 1 && row.msg3_chk != 1 {
        return (row.msg.clone(), image_if(row.img1_chk, &row.img1));
    }
    if *turno == 0 {
        *turno = 1;
        (row.msg.clone(), image_if(row.img1_chk, &row.img1))
    } else if *turno == 1 {
        if row.msg2_chk == 1 {
            *turno = if row.msg3_chk == 1 {
                2
            } else {
                0
            };
            (text_or_first(&row.msg2, &row.msg), image_if(row.img2_chk, &row.img2))
        } else {
            *turno = 0;
            (text_or_first(&row.msg3, &row.msg), image_if(row.img3_chk, &row.img3))
        }
    } else {
        *turno = 0;
        (text_or_first(&row.msg3, &row.msg), image_if(row.img3_chk, &row.img3))
    }
}

/// Whatever the turn before, the turn after a pick is 0, 1 or 2.
pub proof fn lemma_turn_stays_in_range(row: MsgRow, turno: u8)
    ensures
        picked(row, turno).2 <= 2 || picked(row, turno).2 == turno,
        (row.msg2_chk == 1 || row.msg3_chk == 1) ==> picked(row, turno).2 <= 2,
{
}

/// With neither alternative enabled every recipient gets the first message
/// (and its image when flagged), and the turn is left alone.
pub proof fn lemma_single_variant_fixed(row: MsgRow, turno: u8)
    requires
        row.msg2_chk != 1,
        row.msg3_chk != 1,
    ensures
        picked(row, turno) == (row.msg@, flagged_image(row.img1_chk, row.img1), turno),
{
}

/// With both alternatives enabled, three successive recipients starting at
/// turn 0 get the first, second and third variant, and the turn is back at 0.
pub proof fn lemma_three_variants_rotate(a: MsgRow, b: MsgRow, c: MsgRow)
    requires
        a.msg2_chk == 1 && a.msg3_chk == 1,
        b.msg2_chk == 1 && b.msg3_chk == 1,
        c.msg2_chk == 1 && c.msg3_chk == 1,
    ensures
        picked(a, 0).0 == a.msg@,
        picked(a, 0).2 == 1,
        picked(b, 1).0 == variant_text(b.msg2, b.msg),
        picked(b, 1).2 == 2,
        picked(c, 2).0 == variant_text(c.msg3, c.msg),
        picked(c, 2).2 == 0,
{
}

/// With only the second alternative enabled, the variants alternate between
/// the first and the second.
pub proof fn lemma_two_variants_alternate(a: MsgRow, b: MsgRow)
    requires
        a.msg2_chk == 1 && a.msg3_chk != 1,
        b.msg2_chk == 1 && b.msg3_chk != 1,
    ensures
        picked(a, 0).0 == a.msg@,
        picked(a, 0).2 == 1,
        picked(b, 1).0 == variant_text(b.msg2, b.msg),
        picked(b, 1).2 == 0,
{
}

/// The member number `DDDDDD` printed as `DD-DDD/D`.
pub open spec fn socnro_text(n: nat) -> Seq<char> {
    zero_padded(decimal(n / 10000), 2) + seq!['-'] + zero_padded(decimal((n % 10000) / 10), 3)
        + seq!['/'] + decimal(n % 10)
}

/// Formats a member number (e.g. 322620) as `32-262/0`.
pub fn format_socnro(n: u64) -> (s: String)
    ensures
        s@ == socnro_text(n as nat),
{
    let mut out: Vec<char> = Vec::new();
    push_decimal_padded(&mut out, n / 10000, 2);
    out.push('-');
    push_decimal_padded(&mut out, (n % 10000) / 10, 3);
    out.push('/');
    push_decimal(&mut out, n % 10);
    proof {
        assert(out@ =~= socnro_text(n as nat));
    }
    string_of(out.as_slice())
}

/// The contact name: the recipient's name, followed by ` - ` and the
/// formatted member number when there is one.
pub open spec fn contact_name_text(nombre: Seq<char>, socnro: Option<u64>) -> Seq<char> {
    match socnro {
        Some(n) => nombre + seq![' ', '-', ' '] + socnro_text(n as nat),
        None => nombre,
    }
}

/// The name under which a recipient is registered as a contact.
pub fn contact_name(nombre: &str, socnro: Option<u64>) -> (name: String)
    ensures
        name@ == contact_name_text(nombre@, socnro),
{
    match socnro {
        Some(n) => {
            let mut out = nombre.to_owned();
            out.append(" - ");
            proof {
                assert(" - "@ =~= seq![' ', '-', ' ']) by {
                    reveal_strlit(" - ");
                }
            }
            let f = format_socnro(n);
            out.append(f.as_str());
            out
        },
        None => nombre.to_owned(),
    }
}

/// `s` with every trailing copy of `suffix` removed (`trim_end_matches`).
pub open spec fn drop_trailing(s: Seq<char>, suffix: Seq<char>) -> Seq<char>
    decreases s.len(),
{
    if suffix.len() > 0 && s.len() >= suffix.len() && s.subrange(
        s.len() - suffix.len(),
        s.len() as int,
    ) =~= suffix {
        drop_trailing(s.subrange(0, s.len() - suffix.len()), suffix)
    } else {
        s
    }
}

/// The contact number for a WhatsApp user id: `+` and the id without its
/// trailing `@c.us`.
pub open spec fn contact_phone_text(jid: Seq<char>) -> Seq<char> {
    seq!['+'] + drop_trailing(jid, jid_suffix())
}

/// The contact number (`+` and digits) for a WhatsApp user id.
pub fn contact_phone(jid: &str) -> (phone: String)
    ensures
        phone@ == contact_phone_text(jid@),
{
    let cs = chars_of(jid);
    let suffix: Vec<char> = vec!['@', 'c', '.', 'u', 's'];
    assert(suffix@ =~= jid_suffix());
    let mut end: usize = cs.len();
    assert(cs@.subrange(0, end as int) =~= cs@);
    while end >= 5 && cs[end - 5] == '@' && cs[end - 4] == 'c' && cs[end - 3] == '.' && cs[end - 2]
        == 'u' && cs[end - 1] == 's'
        invariant
            end <= cs@.len(),
            drop_trailing(cs@, jid_suffix()) == drop_trailing(cs@.subrange(0, end as int), jid_suffix()),
        decreases end,
    {
        proof {
            let t = cs@.subrange(0, end as int);
            assert(t.subrange(t.len() - 5, t.len() as int) =~= jid_suffix());
            assert(t.subrange(0, t.len() - 5) =~= cs@.subrange(0, end - 5));
        }
        end = end - 5;
    }
    proof {
        if end == cs@.len() {
            assert(cs@.subrange(0, end as int) =~= cs@);
        }
        let t = cs@.subrange(0, end as int);
        if t.len() >= 5 {
            assert(!(t.subrange(t.len() - 5, t.len() as int) =~= jid_suffix())) by {
                if t.subrange(t.len() - 5, t.len() as int) =~= jid_suffix() {
                    assert(t.subrange(t.len() - 5, t.len() as int)[0] == '@');
                    assert(t.subrange(t.len() - 5, t.len() as int)[1] == 'c');
                    assert(t.subrange(t.len() - 5, t.len() as int)[2] == '.');
                    assert(t.subrange(t.len() - 5, t.len() as int)[3] == 'u');
                    assert(t.subrange(t.len() - 5, t.len() as int)[4] == 's');
                }
            }
        }
        assert(drop_trailing(t, jid_suffix()) == t);
    }
    let mut out: Vec<char> = vec!['+'];
    let mut k: usize = 0;
    while k < end
        invariant
            end <= cs@.len(),
            k <= end,
            out@ =~= seq!['+'] + cs@.subrange(0, k as int),
        decreases end - k,
    {
        out.push(cs[k]);
        k = k + 1;
    }
    string_of(out.as_slice())
}

/// For an E.164 number, the contact number derived from its WhatsApp user
/// id is the E.164 number itself.
pub proof fn lemma_contact_phone_is_e164(e: Seq<char>)
    requires
        e164_shaped(e),
    ensures
        contact_phone_text(drop_leading_plus(e) + jid_suffix()) == e,
{
    let rest = e.drop_first();
    assert(drop_leading_plus(e) == drop_leading_plus(rest));
    assert(rest[0] != '+');
    assert(drop_leading_plus(rest) == rest);
    let j = rest + jid_suffix();
    assert(j.subrange(j.len() - 5, j.len() as int) =~= jid_suffix());
    assert(j.subrange(0, j.len() - 5) =~= rest);
    assert(drop_trailing(rest, jid_suffix()) == rest) by {
        if rest.len() >= 5 {
            assert(!(rest.subrange(rest.len() - 5, rest.len() as int) =~= jid_suffix())) by {
                if rest.subrange(rest.len() - 5, rest.len() as int) =~= jid_suffix() {
                    assert(rest.subrange(rest.len() - 5, rest.len() as int)[0] == '@');
                    assert(rest[rest.len() - 5] == e[rest.len() - 4]);
                }
            }
        }
    }
    assert(seq!['+'] + rest =~= e);
}

/// What a recipient row needs before it can be sent: its WhatsApp user id,
/// and the name and number it is registered under as a contact.
pub struct PreparedRow {
    pub jid: String,
    pub contact_name: String,
    pub contact_phone: String,
}

/// Prepares a recipient: formats its number, or says why it cannot be used
/// (the row is then marked failed).
pub fn prepare_row(row: &MsgRow) -> (r: Result<PreparedRow, PhoneError>)
    ensures
        match r {
            Ok(p) => {
                &&& formatted_phone(row.numero@) == Ok::<Seq<char>, PhoneError>(p.jid@)
                &&& p.contact_phone@ == contact_phone_text(p.jid@)
                &&& normalized_phone(row.numero@) == Some(p.contact_phone@)
                &&& p.contact_name@ == contact_name_text(row.nombre@, row.socnro)
            },
            Err(e) => formatted_phone(row.numero@) == Err::<Seq<char>, PhoneError>(e),
        },
{
    let jid = format_phone(row.numero.as_str())?;
    let phone = contact_phone(jid.as_str());
    proof {
        lemma_contact_phone_is_e164(crate::phone::phone_e164(crate::phone::phone_parse_text(row.numero@)));
    }
    let name = contact_name(row.nombre.as_str(), row.socnro);
    Ok(PreparedRow { jid, contact_name: name, contact_phone: phone })
}

/// The status a row is marked with: `ENV` when delivered, `FAL` otherwise.
pub open spec fn delivery_status_text(delivered: bool) -> Seq<char> {
    if delivered {
        seq!['E', 'N', 'V']
    } else {
        seq!['F', 'A', 'L']
    }
}

/// The status to record after a send attempt.
pub fn delivery_status(delivered: bool) -> (s: String)
    ensures
        s@ == delivery_status_text(delivered),
{
    if delivered {
        string_of(&['E', 'N', 'V'])
    } else {
        string_of(&['F', 'A', 'L'])
    }
}

/// Trusted: `rand::random_range(lo..=hi)` with the thread-local generator.
/// It returns a value of the inclusive range, which must not be empty.
#[verifier::external_body]
fn random_between(lo: u64, hi: u64) -> (r: u64)
    requires
        lo <= hi,
    ensures
        lo <= r <= hi,
{
    rand::random_range(lo..=hi)
}

/// The pause, in seconds, after a message: none when the upper bound is 0;
/// a random value between the bounds when the upper one exceeds the lower
/// one; the lower bound otherwise.
pub fn inter_message_delay(seg_ret_dsd: u64, seg_ret_hst: u64) -> (delay: u64)
    ensures
        seg_ret_hst == 0 ==> delay == 0,
        0 < seg_ret_hst <= seg_ret_dsd ==> delay == seg_ret_dsd,
        seg_ret_hst > seg_ret_dsd ==> seg_ret_dsd <= delay <= seg_ret_hst,
{
    if seg_ret_hst == 0 {
        return 0;
    }
    let hi = if seg_ret_hst > seg_ret_dsd {
        seg_ret_hst
    } else {
        seg_ret_dsd
    };
    if hi > seg_ret_dsd {
        random_between(seg_ret_dsd, hi)
    } else {
        seg_ret_dsd
    }
}

/// What to do after a send attempt.
#[derive(PartialEq, Eq, Debug, Clone, Copy)]
pub enum RetryStep {
    /// Sent: stop with success.
    Delivered,
    /// Failed with attempts left: wait a second and try again.
    RetryAfterPause,
    /// Failed on the last attempt: stop with the error.
    GiveUp,
}

/// Attempts are numbered from 0; there are `max_retries + 1` of them.
pub fn retry_step(attempt: u32, max_retries: u32, sent: bool) -> (step: RetryStep)
    ensures
        sent ==> step == RetryStep::Delivered,
        !sent && attempt < max_retries ==> step == RetryStep::RetryAfterPause,
        !sent && attempt >= max_retries ==> step == RetryStep::GiveUp,
{
    if sent {
        RetryStep::Delivered
    } else if attempt < max_retries {
        RetryStep::RetryAfterPause
    } else {
        RetryStep::GiveUp
    }
}


/// Why a send or resend request was refused.
#[derive(PartialEq, Eq, Debug, Clone, Copy)]
pub enum GxError {
    /// No session under that name.
    SessionNotFound,
    /// The session is not connected.
    SessionNotConnected,
}

/// Sending needs an existing, connected session.
pub fn gx_precheck(status: Option<SessionStatus>) -> (r: Result<(), GxError>)
    ensures
        status is None ==> r == Err::<(), GxError>(GxError::SessionNotFound),
        status matches Some(st) ==> (st == SessionStatus::Connected <==> r is Ok),
        status matches Some(st) ==> (st != SessionStatus::Connected ==> r == Err::<(), GxError>(
            GxError::SessionNotConnected,
        )),
{
    match status {
        None => Err(GxError::SessionNotFound),
        Some(SessionStatus::Connected) => Ok(()),
        Some(_) => Err(GxError::SessionNotConnected),
    }
}


/// Where a campaign run stands: which action it waits on.
#[derive(PartialEq, Eq, Debug, Clone, Copy, Structural)]
pub enum CampaignPhase {
    /// Waiting to hear whether the row's WhatsApp id is usable.
    AwaitJid,
    /// Waiting for the outcome of a send attempt.
    AwaitSend,
    /// Waiting for the row's status to be stored; `after_send` tells
    /// whether a send was attempted for the row.
    AwaitMark { after_send: bool },
    /// Waiting for the pause between two messages to end.
    AwaitSleep,
    /// Every row has been handled.
    Finished,
}

/// The state of a campaign run over its rows.
#[derive(PartialEq, Eq, Debug, Clone, Copy, Structural)]
pub struct CampaignState {
    /// The row being handled.
    pub row: usize,
    /// The message rotation's turn.
    pub turno: u8,
    /// The send attempt of the row, from 0.
    pub attempt: u32,
    pub phase: CampaignPhase,
}

/// What the run hears back after an action.
#[derive(PartialEq, Eq, Debug, Clone, Copy, Structural)]
pub enum CampaignEvent {
    /// Whether the WhatsApp id of `Prepare` could be used.
    JidChecked(bool),
    /// Whether a send attempt delivered the message.
    Attempted(bool),
    /// The image of the message could not be uploaded.
    UploadFailed,
    /// The row's status was stored.
    Marked,
    /// The pause ended.
    Slept,
}

/// What the run asks to be done next.
pub enum CampaignAction {
    /// Check the WhatsApp id `jid`, and register the recipient as a contact
    /// under `contact_name` and `contact_phone`.
    Prepare { jid: String, contact_name: String, contact_phone: String },
    /// Send this text, with this image when there is one.
    Send { text: String, image: Option<Vec<u8>> },
    /// Wait a second and send the same message again.
    RetryAfterPause,
    /// Store `status` (`ENV` or `FAL`) for the row `secuencia`.
    Mark { secuencia: i32, status: String },
    /// Pause this many seconds before the next row.
    Sleep(u64),
    /// Nothing more to do.
    Done,
}

/// The retries of a send after the first attempt.
pub const MAX_SEND_RETRIES: u32 = 2;

/// `r` marks row `i` with the given delivery outcome.
pub open spec fn marks(rows: Seq<MsgRow>, i: int, delivered: bool, a: CampaignAction) -> bool {
    a matches CampaignAction::Mark { secuencia, status } && secuencia == rows[i].secuencia
        && status@ == delivery_status_text(delivered)
}

/// `r` is how the run begins row `i` with turn `turno`: done past the last
/// row; a row whose number cannot be formatted is marked `FAL` at once, with
/// the turn left as it was; otherwise its WhatsApp id and contact entry are
/// handed out for checking.
pub open spec fn begins_row(rows: Seq<MsgRow>, i: int, turno: u8, r: (CampaignState, CampaignAction)) -> bool {
    &&& r.0.row == i
    &&& r.0.turno == turno
    &&& if i >= rows.len() {
        r.0.phase == CampaignPhase::Finished && r.1 is Done
    } else {
        match formatted_phone(rows[i].numero@) {
            Err(_) => r.0.phase == (CampaignPhase::AwaitMark { after_send: false }) && marks(
                rows,
                i,
                false,
                r.1,
            ),
            Ok(j) => r.0.phase == CampaignPhase::AwaitJid && (r.1 matches CampaignAction::Prepare {
                jid,
                contact_name,
                contact_phone,
            } && jid@ == j && contact_phone@ == contact_phone_text(j) && normalized_phone(
                rows[i].numero@,
            ) == Some(contact_phone@) && contact_name@ == contact_name_text(
                rows[i].nombre@,
                rows[i].socnro,
            )),
        }
    }
}

/// The pause after a message, as `inter_message_delay` chooses it.
pub open spec fn delay_fits(seg_ret_dsd: u64, seg_ret_hst: u64, d: u64) -> bool {
    &&& seg_ret_hst == 0 ==> d == 0
    &&& 0 < seg_ret_hst <= seg_ret_dsd ==> d == seg_ret_dsd
    &&& seg_ret_hst > seg_ret_dsd ==> seg_ret_dsd <= d <= seg_ret_hst
}

fn begin_row(rows: &Vec<MsgRow>, i: usize, turno: u8) -> (r: (CampaignState, CampaignAction))
    requires
        i <= rows@.len(),
    ensures
        begins_row(rows@, i as int, turno, r),
{
    if i >= rows.len() {
        return (CampaignState { row: i, turno, attempt: 0, phase: CampaignPhase::Finished }, CampaignAction::Done);
    }
    match prepare_row(&rows[i]) {
        Err(_) => (
            CampaignState { row: i, turno, attempt: 0, phase: CampaignPhase::AwaitMark { after_send: false } },
            CampaignAction::Mark { secuencia: rows[i].secuencia, status: delivery_status(false) },
        ),
        Ok(p) => (
            CampaignState { row: i, turno, attempt: 0, phase: CampaignPhase::AwaitJid },
            CampaignAction::Prepare { jid: p.jid, contact_name: p.contact_name, contact_phone: p.contact_phone },
        ),
    }
}

/// How a campaign run over `rows` begins: with the first row, turn 0.
pub fn campaign_start(rows: &Vec<MsgRow>) -> (r: (CampaignState, CampaignAction))
    ensures
        begins_row(rows@, 0, 0, r),
{
    begin_row(rows, 0, 0)
}

/// One step of a campaign run: from the state and what was heard back, the
/// next state and action.
///
/// A usable id leads to a send of the content the rotation picks; a failed
/// attempt is retried after a pause up to `max_retries` times; the row is
/// then marked `ENV` or `FAL`. After a row that was sent to, and only when
/// another row follows, the run pauses as `inter_message_delay` chooses
/// (when that is not zero). An event that does not answer the action the
/// state waits on, or any event once finished, ends the run.
pub fn campaign_step(
    rows: &Vec<MsgRow>,
    state: CampaignState,
    event: CampaignEvent,
    seg_ret_dsd: u64,
    seg_ret_hst: u64,
    max_retries: u32,
) -> (r: (CampaignState, CampaignAction))
    ensures
        state.row < rows@.len() && state.phase == CampaignPhase::AwaitJid && event == CampaignEvent::JidChecked(false)
            ==> r.0 == (CampaignState { phase: CampaignPhase::AwaitMark { after_send: false }, ..state }) && marks(
            rows@,
            state.row as int,
            false,
            r.1,
        ),
        state.row < rows@.len() && state.phase == CampaignPhase::AwaitJid && event == CampaignEvent::JidChecked(true)
            ==> r.0.row == state.row && r.0.attempt == 0 && r.0.phase == CampaignPhase::AwaitSend && (
        r.1 matches CampaignAction::Send { text, image } && (text@, opt_bytes(image), r.0.turno) == picked(
            rows@[state.row as int],
            state.turno,
        )),
        state.row < rows@.len() && state.phase == CampaignPhase::AwaitSend && event == CampaignEvent::Attempted(true)
            ==> r.0 == (CampaignState { phase: CampaignPhase::AwaitMark { after_send: true }, ..state }) && marks(
            rows@,
            state.row as int,
            true,
            r.1,
        ),
        state.row < rows@.len() && state.phase == CampaignPhase::AwaitSend && event == CampaignEvent::Attempted(false)
            && state.attempt < max_retries ==> r.0 == (CampaignState { attempt: (state.attempt + 1) as u32, ..state })
            && r.1 is RetryAfterPause,
        state.row < rows@.len() && state.phase == CampaignPhase::AwaitSend && (event == CampaignEvent::UploadFailed || (
        event == CampaignEvent::Attempted(false) && state.attempt >= max_retries)) ==> r.0 == (CampaignState {
            phase: CampaignPhase::AwaitMark { after_send: true },
            ..state
        }) && marks(rows@, state.row as int, false, r.1),
        state.row < rows@.len() && state.phase == (CampaignPhase::AwaitMark { after_send: true }) && event
            == CampaignEvent::Marked && state.row + 1 < rows@.len() ==> match r.1 {
            CampaignAction::Sleep(d) => d > 0 && delay_fits(seg_ret_dsd, seg_ret_hst, d) && r.0 == (CampaignState {
                phase: CampaignPhase::AwaitSleep,
                ..state
            }),
            _ => delay_fits(seg_ret_dsd, seg_ret_hst, 0) && begins_row(rows@, state.row + 1, state.turno, r),
        },
        state.row < rows@.len() && state.phase == (CampaignPhase::AwaitMark { after_send: true }) && event
            == CampaignEvent::Marked && state.row + 1 >= rows@.len() ==> begins_row(
            rows@,
            state.row + 1,
            state.turno,
            r,
        ),
        state.row < rows@.len() && state.phase == (CampaignPhase::AwaitMark { after_send: false }) && event
            == CampaignEvent::Marked ==> begins_row(rows@, state.row + 1, state.turno, r),
        state.row < rows@.len() && state.phase == CampaignPhase::AwaitSleep && event == CampaignEvent::Slept
            ==> begins_row(rows@, state.row + 1, state.turno, r),
        !answers(state, event, rows@.len()) ==> r.0 == state && r.1 is Done,
{
    if state.row >= rows.len() {
        return (state, CampaignAction::Done);
    }
    let i = state.row;
    match (state.phase, event) {
        (CampaignPhase::AwaitJid, CampaignEvent::JidChecked(false)) => (
            CampaignState { phase: CampaignPhase::AwaitMark { after_send: false }, ..state },
            CampaignAction::Mark { secuencia: rows[i].secuencia, status: delivery_status(false) },
        ),
        (CampaignPhase::AwaitJid, CampaignEvent::JidChecked(true)) => {
            let mut turno = state.turno;
            let (text, image) = pick_content(&rows[i], &mut turno);
            (
                CampaignState { row: i, turno, attempt: 0, phase: CampaignPhase::AwaitSend },
                CampaignAction::Send { text, image },
            )
        },
        (CampaignPhase::AwaitSend, CampaignEvent::Attempted(sent)) => match retry_step(state.attempt, max_retries, sent) {
            RetryStep::Delivered => (
                CampaignState { phase: CampaignPhase::AwaitMark { after_send: true }, ..state },
                CampaignAction::Mark { secuencia: rows[i].secuencia, status: delivery_status(true) },
            ),
            RetryStep::RetryAfterPause => (
                CampaignState { attempt: state.attempt + 1, ..state },
                CampaignAction::RetryAfterPause,
            ),
            RetryStep::GiveUp => (
                CampaignState { phase: CampaignPhase::AwaitMark { after_send: true }, ..state },
                CampaignAction::Mark { secuencia: rows[i].secuencia, status: delivery_status(false) },
            ),
        },
        (CampaignPhase::AwaitSend, CampaignEvent::UploadFailed) => (
            CampaignState { phase: CampaignPhase::AwaitMark { after_send: true }, ..state },
            CampaignAction::Mark { secuencia: rows[i].secuencia, status: delivery_status(false) },
        ),
        (CampaignPhase::AwaitMark { after_send }, CampaignEvent::Marked) => {
            if after_send && i + 1 < rows.len() {
                let d = inter_message_delay(seg_ret_dsd, seg_ret_hst);
                if d > 0 {
                    return (CampaignState { phase: CampaignPhase::AwaitSleep, ..state }, CampaignAction::Sleep(d));
                }
            }
            begin_row(rows, i + 1, state.turno)
        },
        (CampaignPhase::AwaitSleep, CampaignEvent::Slept) => begin_row(rows, i + 1, state.turno),
        _ => (state, CampaignAction::Done),
    }
}

/// Whether `event` answers the action that `state` waits on (over `n` rows).
pub open spec fn answers(state: CampaignState, event: CampaignEvent, n: nat) -> bool {
    &&& state.row < n
    &&& match state.phase {
        CampaignPhase::AwaitJid => event is JidChecked,
        CampaignPhase::AwaitSend => event is Attempted || event is UploadFailed,
        CampaignPhase::AwaitMark { .. } => event is Marked,
        CampaignPhase::AwaitSleep => event is Slept,
        CampaignPhase::Finished => false,
    }
}


/// With only the third variant enabled besides the first, the variants
/// alternate between the first and the third: from turn 0 the first
/// message (with the first image when flagged), then the third message
/// (the first one where it is missing, with the third image when flagged),
/// and the turn is back at 0.
pub proof fn lemma_first_and_third_alternate(a: MsgRow, b: MsgRow)
    requires
        a.msg2_chk != 1 && a.msg3_chk == 1,
        b.msg2_chk != 1 && b.msg3_chk == 1,
    ensures
        picked(a, 0).0 == a.msg@,
        picked(a, 0).1 == (if a.img1_chk == 1 { opt_bytes(a.img1) } else { None }),
        picked(a, 0).2 == 1,
        picked(b, 1).0 == (match b.msg3 {
            Some(t) => t@,
            None => b.msg@,
        }),
        picked(b, 1).1 == (if b.img3_chk == 1 { opt_bytes(b.img3) } else { None }),
        picked(b, 1).2 == 0,
{
}

} // verus!
