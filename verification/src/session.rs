//! WhatsApp session state: the status a session is in, how connection
//! events move it and what history they record, the table of live
//! sessions, and the replies of the session endpoints.

use vstd::prelude::*;
use vstd::string::*;
use crate::oracle::Whatn002Row;
use crate::text::{chars_of, join_path, path_join, string_of};

verus! {

/// Lifecycle of a WhatsApp session.
#[derive(Debug, Clone, Copy, PartialEq, Eq, Structural)]
pub enum SessionStatus {
    Closed,
    Starting,
    WaitingQr,
    Connected,
}

/// The status word reported to clients.
pub open spec fn status_label_text(st: SessionStatus) -> Seq<char> {
    match st {
        SessionStatus::Closed => "CLOSED"@,
        SessionStatus::Starting => "INITIALIZING"@,
        SessionStatus::WaitingQr => "QRCODE"@,
        SessionStatus::Connected => "CONNECTED"@,
    }
}

/// The status word reported to clients.
pub fn status_label(st: &SessionStatus) -> (label: &'static str)
    ensures
        label@ == status_label_text(*st),
{
    match st {
        SessionStatus::Closed => "CLOSED",
        SessionStatus::Starting => "INITIALIZING",
        SessionStatus::WaitingQr => "QRCODE",
        SessionStatus::Connected => "CONNECTED",
    }
}

pub const SESSION_XML_HEAD: &'static str = "<root><status>";
pub const SESSION_XML_MIDDLE: &'static str = "</status><urlcode>";
pub const SESSION_XML_TAIL: &'static str = "</urlcode><version>1.0.0</version></root>";

/// The session report: status word and QR string.
pub open spec fn session_xml_text(status: Seq<char>, urlcode: Seq<char>) -> Seq<char> {
    SESSION_XML_HEAD@ + status + SESSION_XML_MIDDLE@ + urlcode + SESSION_XML_TAIL@
}

/// Builds the session report.
pub fn session_xml(status: &str, urlcode: &str) -> (xml: String)
    ensures
        xml@ == session_xml_text(status@, urlcode@),
{
    let mut out = String::new();
    out.append(SESSION_XML_HEAD);
    out.append(status);
    out.append(SESSION_XML_MIDDLE);
    out.append(urlcode);
    out.append(SESSION_XML_TAIL);
    out
}

/// The live state of a session: its status and the last QR string.
pub struct SessionState {
    pub status: SessionStatus,
    pub qr: Option<String>,
}

/// The state of a session being started.
pub fn starting_state() -> (s: SessionState)
    ensures
        s.status == SessionStatus::Starting,
        s.qr is None,
{
    SessionState { status: SessionStatus::Starting, qr: None }
}

/// An image or video inside a message.
pub struct MediaPart {
    pub caption: Option<String>,
    pub mimetype: Option<String>,
}

/// The parts of an incoming WhatsApp message that are recorded.
pub struct IncomingContent {
    pub image: Option<MediaPart>,
    pub video: Option<MediaPart>,
    /// An audio message, with its MIME type when given.
    pub audio: Option<Option<String>>,
    /// A document message, with its MIME type when given.
    pub document: Option<Option<String>>,
    pub sticker: bool,
    pub conversation: Option<String>,
    /// An extended text message, with its text when given.
    pub extended_text: Option<Option<String>>,
}

/// A connection event of a session, as the event handler sees it.
pub enum SessionEvent {
    PairingQrCode { code: String },
    Connected,
    Disconnected,
    LoggedOut,
    Message {
        is_group: bool,
        /// Whether the chat is the status broadcast.
        is_broadcast: bool,
        sender_user: String,
        chat_user: String,
        is_from_me: bool,
        /// `YYYY-MM-DD HH:MM:SS` of the message.
        timestamp: String,
        content: IncomingContent,
    },
}

/// Longest body kept for a text message, in characters.
pub const MAX_BODY_CHARS: usize = 3999;

/// `o`'s text, or `d`.
pub open spec fn text_or(o: Option<String>, d: Seq<char>) -> Seq<char> {
    match o {
        Some(s) => s@,
        None => d,
    }
}

/// The text of a plain message: the conversation text, else the extended
/// text, else empty.
pub open spec fn plain_body(c: IncomingContent) -> Seq<char> {
    match c.conversation {
        Some(s) => s@,
        None => match c.extended_text {
            Some(Some(t)) => t@,
            _ => Seq::empty(),
        },
    }
}

/// At most the first `n` characters of `s`.
pub open spec fn at_most(s: Seq<char>, n: int) -> Seq<char> {
    if s.len() <= n {
        s
    } else {
        s.take(n)
    }
}

/// What is recorded of a message: body, whether it carries media, MIME type.
pub open spec fn recorded_content(c: IncomingContent) -> (Seq<char>, bool, Seq<char>) {
    match c.image {
        Some(m) => (text_or(m.caption, Seq::empty()), true, text_or(m.mimetype, "image/jpeg"@)),
        None => match c.video {
            Some(m) => (text_or(m.caption, Seq::empty()), true, text_or(m.mimetype, "video/mp4"@)),
            None => match c.audio {
                Some(mt) => (Seq::empty(), true, text_or(mt, "audio/mpeg"@)),
                None => match c.document {
                    Some(mt) => (Seq::empty(), true, text_or(mt, "application/octet-stream"@)),
                    None => if c.sticker {
                        (Seq::empty(), true, "image/webp"@)
                    } else {
                        (at_most(plain_body(c), MAX_BODY_CHARS as int), false, Seq::empty())
                    },
                },
            },
        },
    }
}

fn text_or_exec(o: &Option<String>, d: &str) -> (r: String)
    ensures
        r@ == text_or(*o, d@),
{
    match o {
        Some(s) => s.clone(),
        None => d.to_owned(),
    }
}

fn take_chars(s: &str, n: usize) -> (r: String)
    ensures
        r@ == at_most(s@, n as int),
{
    let cs = chars_of(s);
    if cs.len() <= n {
        return string_of(cs.as_slice());
    }
    let mut out: Vec<char> = Vec::new();
    let mut i: usize = 0;
    while i < n
        invariant
            i <= n < cs@.len(),
            out@ =~= cs@.subrange(0, i as int),
        decreases n - i,
    {
        out.push(cs[i]);
        i = i + 1;
    }
    string_of(out.as_slice())
}

/// Returns (body, has media, MIME type) of an incoming message.
pub fn extract_msg_content(c: &IncomingContent) -> (r: (String, bool, String))
    ensures
        (r.0@, r.1, r.2@) == recorded_content(*c),
{
    proof {
        lemma_empty_literal();
    }
    if let Some(img) = &c.image {
        return (text_or_exec(&img.caption, ""), true, text_or_exec(&img.mimetype, "image/jpeg"));
    }
    if let Some(vid) = &c.video {
        return (text_or_exec(&vid.caption, ""), true, text_or_exec(&vid.mimetype, "video/mp4"));
    }
    if let Some(mt) = &c.audio {
        return (empty_text(), true, text_or_exec(mt, "audio/mpeg"));
    }
    if let Some(mt) = &c.document {
        return (empty_text(), true, text_or_exec(mt, "application/octet-stream"));
    }
    if c.sticker {
        return (empty_text(), true, "image/webp".to_owned());
    }
    let body = match &c.conversation {
        Some(s) => take_chars(s.as_str(), MAX_BODY_CHARS),
        None => match &c.extended_text {
            Some(Some(t)) => take_chars(t.as_str(), MAX_BODY_CHARS),
            _ => empty_text(),
        },
    };
    (body, false, empty_text())
}

fn empty_text() -> (s: String)
    ensures
        s@ == Seq::<char>::empty(),
{
    String::new()
}

proof fn lemma_empty_literal()
    ensures
        ""@ == Seq::<char>::empty(),
{
    reveal_strlit("");
    assert(""@ =~= Seq::<char>::empty());
}

/// What the event handler records in the history table.
pub enum EventRecord {
    /// Nothing to record.
    Nothing,
    /// Insert this history row, and set the office's status
    /// (`WHAOFIESTADO`) to `officer_status`.
    Lifecycle { row: Whatn002Row, officer_status: String },
    /// Insert this message row; then bump the reply counter of the
    /// campaign row sent to `numero_cliente`.
    InsertMessage { row: Whatn002Row, numero_cliente: String },
}

/// The history row written when a session connects (`INI`) or is logged
/// out (`DES`), at time `now`.
pub open spec fn lifecycle_row(r: Whatn002Row, ofi: Seq<char>, now: Seq<char>, tipo: Seq<char>, mensaje: Seq<char>) -> bool {
    &&& r.ofi@ == ofi
    &&& r.nro_origen@ == Seq::<char>::empty()
    &&& r.nro_dest@ == Seq::<char>::empty()
    &&& r.mensaje@ == mensaje
    &&& r.fecha_hora@ == now
    &&& r.propio == 0
    &&& r.tipo@ == tipo
    &&& r.has_media == 0
    &&& r.mimetype@ == Seq::<char>::empty()
    &&& r.mediadata@ == Seq::<char>::empty()
}

pub const LOGGED_OUT_MESSAGE: &'static str = "SESSION CERRADA POR EL OFICIAL!!";
pub const OFFICER_CONNECTED: &'static str = "CONECTADO";
pub const OFFICER_DISCONNECTED: &'static str = "DESCONECTADO";

fn lifecycle(ofi: &str, now: &str, tipo: &str, mensaje: &str) -> (r: Whatn002Row)
    ensures
        lifecycle_row(r, ofi@, now@, tipo@, mensaje@),
{
    Whatn002Row {
        ofi: ofi.to_owned(),
        nro_origen: empty_text(),
        nro_dest: empty_text(),
        mensaje: mensaje.to_owned(),
        fecha_hora: now.to_owned(),
        propio: 0,
        tipo: tipo.to_owned(),
        has_media: 0,
        mimetype: empty_text(),
        mediadata: empty_text(),
    }
}

fn plus_prefixed(user: &str) -> (r: String)
    ensures
        r@ == seq!['+'] + user@,
{
    let mut out = string_of(&['+']);
    out.append(user);
    out
}

/// Applies a connection event to a session of office `ofi`: the new state,
/// and what to record (`now` is the current time as `YYYY-MM-DD HH:MM:SS`).
///
/// A QR code puts the session in `WaitingQr` with that code; connecting
/// makes it `Connected`, clears the QR, records `INI` and marks the office
/// `CONECTADO`; a disconnection closes it and clears the QR, so that the
/// next start replaces it; a log-out closes it, clears the QR, records
/// `DES` and marks the office `DESCONECTADO`. Messages leave the state
/// alone; those of groups and of the status broadcast are not recorded.
pub fn on_event(ofi: &str, state: SessionState, event: &SessionEvent, now: &str) -> (r: (SessionState, EventRecord))
    ensures
        match event {
            SessionEvent::PairingQrCode { code } => r.0.status == SessionStatus::WaitingQr && r.0.qr
                == Some(*code) && r.1 is Nothing,
            SessionEvent::Connected => r.0.status == SessionStatus::Connected && r.0.qr is None && (
            r.1 matches EventRecord::Lifecycle { row, officer_status } && lifecycle_row(
                row,
                ofi@,
                now@,
                "INI"@,
                Seq::empty(),
            ) && officer_status@ == OFFICER_CONNECTED@),
            SessionEvent::Disconnected => r.0.status == SessionStatus::Closed && r.0.qr is None
                && r.1 is Nothing,
            SessionEvent::LoggedOut => r.0.status == SessionStatus::Closed && r.0.qr is None && (
            r.1 matches EventRecord::Lifecycle { row, officer_status } && lifecycle_row(
                row,
                ofi@,
                now@,
                "DES"@,
                LOGGED_OUT_MESSAGE@,
            ) && officer_status@ == OFFICER_DISCONNECTED@),
            SessionEvent::Message {
                is_group,
                is_broadcast,
                sender_user,
                chat_user,
                is_from_me,
                timestamp,
                content,
            } => r.0 == state && (if *is_group || *is_broadcast {
                r.1 is Nothing
            } else {
                r.1 matches EventRecord::InsertMessage { row, numero_cliente } && {
                    let (body, media, mime) = recorded_content(*content);
                    &&& row.ofi@ == ofi@
                    &&& row.nro_origen@ == seq!['+'] + sender_user@
                    &&& row.nro_dest@ == seq!['+'] + chat_user@
                    &&& row.mensaje@ == body
                    &&& row.fecha_hora@ == timestamp@
                    &&& row.propio == (if *is_from_me { 1i32 } else { 0i32 })
                    &&& row.tipo@ == "MSG"@
                    &&& row.has_media == (if media { 1i32 } else { 0i32 })
                    &&& row.mimetype@ == mime
                    &&& row.mediadata@ == Seq::<char>::empty()
                    &&& numero_cliente@ == (if *is_from_me { row.nro_dest@ } else { row.nro_origen@ })
                }
            }),
        },
{
    match event {
        SessionEvent::PairingQrCode { code } => (
            SessionState { status: SessionStatus::WaitingQr, qr: Some(code.clone()) },
            EventRecord::Nothing,
        ),
        SessionEvent::Connected => {
            proof {
                lemma_empty_literal();
            }
            (
                SessionState { status: SessionStatus::Connected, qr: None },
                EventRecord::Lifecycle {
                    row: lifecycle(ofi, now, "INI", ""),
                    officer_status: OFFICER_CONNECTED.to_owned(),
                },
            )
        },
        SessionEvent::Disconnected => (
            SessionState { status: SessionStatus::Closed, qr: None },
            EventRecord::Nothing,
        ),
        SessionEvent::LoggedOut => (
            SessionState { status: SessionStatus::Closed, qr: None },
            EventRecord::Lifecycle {
                row: lifecycle(ofi, now, "DES", LOGGED_OUT_MESSAGE),
                officer_status: OFFICER_DISCONNECTED.to_owned(),
            },
        ),
        SessionEvent::Message {
            is_group,
            is_broadcast,
            sender_user,
            chat_user,
            is_from_me,
            timestamp,
            content,
        } => {
            if *is_group || *is_broadcast {
                return (state, EventRecord::Nothing);
            }
            let nro_origen = plus_prefixed(sender_user.as_str());
            let nro_dest = plus_prefixed(chat_user.as_str());
            let (body, media, mime) = extract_msg_content(content);
            let numero_cliente = if *is_from_me {
                nro_dest.clone()
            } else {
                nro_origen.clone()
            };
            let row = Whatn002Row {
                ofi: ofi.to_owned(),
                nro_origen,
                nro_dest,
                mensaje: body,
                fecha_hora: timestamp.clone(),
                propio: if *is_from_me {
                    1
                } else {
                    0
                },
                tipo: "MSG".to_owned(),
                has_media: if media {
                    1
                } else {
                    0
                },
                mimetype: mime,
                mediadata: empty_text(),
            };
            (state, EventRecord::InsertMessage { row, numero_cliente })
        },
    }
}


/// The database file of a session: `{name}.db` in the sessions directory.
pub open spec fn session_db_text(sessions_dir: Seq<char>, name: Seq<char>) -> Seq<char> {
    path_join(sessions_dir, name + seq!['.', 'd', 'b'])
}

/// Where a session's database file lives.
pub fn session_db_path(sessions_dir: &str, name: &str) -> (path: String)
    ensures
        path@ == session_db_text(sessions_dir@, name@),
{
    let mut file = name.to_owned();
    file.append(".db");
    proof {
        assert(".db"@ =~= seq!['.', 'd', 'b']) by {
            reveal_strlit(".db");
        }
    }
    join_path(sessions_dir, file.as_str())
}

/// What starting a session does with the entry already under its name.
#[derive(PartialEq, Eq, Debug, Clone, Copy)]
pub enum StartAction {
    /// A session that is not closed is running: hand it back.
    Reuse,
    /// Build a new session (replacing a closed one, if any).
    Create,
}

/// Decides whether `start` reuses the existing session or builds a new one.
pub fn start_action(existing: Option<SessionStatus>) -> (a: StartAction)
    ensures
        a == StartAction::Reuse <==> (existing matches Some(st) && st != SessionStatus::Closed),
{
    match existing {
        Some(SessionStatus::Closed) => StartAction::Create,
        Some(_) => StartAction::Reuse,
        None => StartAction::Create,
    }
}

/// The QR string of a state, or empty.
pub open spec fn qr_or_empty(st: SessionState) -> Seq<char> {
    match st.qr {
        Some(q) => q@,
        None => Seq::empty(),
    }
}

/// The report of a session's state: status word and QR string.
pub fn state_report(st: &SessionState) -> (xml: String)
    ensures
        xml@ == session_xml_text(status_label_text(st.status), qr_or_empty(*st)),
{
    proof {
        lemma_empty_literal();
    }
    let label = status_label(&st.status);
    match &st.qr {
        Some(q) => session_xml(label, q.as_str()),
        None => session_xml(label, ""),
    }
}

/// The answer of the status endpoint.
pub enum StatusPlan {
    /// The session does not exist or is closed.
    Closed,
    /// Report the state; when `store_qr` is set, render that QR string and
    /// store it with the campaign given in the request.
    Report { xml: String, store_qr: Option<String> },
}

/// Decides the status endpoint's answer for a session (if it exists) and
/// the `whacrecod` header (empty when absent).
pub fn status_plan(state: Option<&SessionState>, whacrecod: &str) -> (p: StatusPlan)
    ensures
        match state {
            None => p is Closed,
            Some(st) => if st.status == SessionStatus::Closed {
                p is Closed
            } else {
                p matches StatusPlan::Report { xml, store_qr } && xml@ == session_xml_text(
                    status_label_text(st.status),
                    qr_or_empty(*st),
                ) && (match store_qr {
                    Some(q) => st.qr == Some(q) && whacrecod@.len() > 0,
                    None => st.qr is None || whacrecod@.len() == 0,
                })
            },
        },
{
    match state {
        None => StatusPlan::Closed,
        Some(st) => {
            if st.status == SessionStatus::Closed {
                return StatusPlan::Closed;
            }
            let store_qr = match &st.qr {
                Some(q) => if whacrecod.is_empty() {
                    None
                } else {
                    Some(q.clone())
                },
                None => None,
            };
            StatusPlan::Report { xml: state_report(st), store_qr }
        },
    }
}

/// The answer of the QR-code endpoint.
pub enum QrPlan {
    /// The token in the URL is wrong.
    Unauthorized,
    /// The session does not exist.
    Closed,
    /// There is no QR code at the moment; report the status word.
    NoQr { status: &'static str },
    /// Render this QR string as a PNG image.
    Render(String),
}

/// Decides the QR-code endpoint's answer.
pub fn qrcode_plan(authorized: bool, state: Option<&SessionState>) -> (p: QrPlan)
    ensures
        !authorized ==> p is Unauthorized,
        authorized && state is None ==> p is Closed,
        authorized ==> (state matches Some(st) ==> match st.qr {
            Some(q) => p == QrPlan::Render(q),
            None => p matches QrPlan::NoQr { status } && status@ == status_label_text(st.status),
        }),
{
    if !authorized {
        return QrPlan::Unauthorized;
    }
    match state {
        None => QrPlan::Closed,
        Some(st) => match &st.qr {
            Some(q) => QrPlan::Render(q.clone()),
            None => QrPlan::NoQr { status: status_label(&st.status) },
        },
    }
}

/// The lower-case hexadecimal digit for `d` (`0 <= d < 16`).
pub open spec fn hex_digit(d: int) -> char {
    if d < 10 {
        crate::text::digit_char(d)
    } else if d == 10 {
        'a'
    } else if d == 11 {
        'b'
    } else if d == 12 {
        'c'
    } else if d == 13 {
        'd'
    } else if d == 14 {
        'e'
    } else {
        'f'
    }
}

/// Lower-case hexadecimal of bytes, two digits per byte.
pub open spec fn hex_lower_text(b: Seq<u8>) -> Seq<char>
    decreases b.len(),
{
    if b.len() == 0 {
        Seq::empty()
    } else {
        hex_lower_text(b.drop_last()) + seq![hex_digit((b.last() / 16) as int), hex_digit((b.last() % 16) as int)]
    }
}

fn hex_digit_exec(d: u8) -> (c: char)
    requires
        d < 16,
    ensures
        c == hex_digit(d as int),
{
    if d == 0 {
        '0'
    } else if d == 1 {
        '1'
    } else if d == 2 {
        '2'
    } else if d == 3 {
        '3'
    } else if d == 4 {
        '4'
    } else if d == 5 {
        '5'
    } else if d == 6 {
        '6'
    } else if d == 7 {
        '7'
    } else if d == 8 {
        '8'
    } else if d == 9 {
        '9'
    } else if d == 10 {
        'a'
    } else if d == 11 {
        'b'
    } else if d == 12 {
        'c'
    } else if d == 13 {
        'd'
    } else if d == 14 {
        'e'
    } else {
        'f'
    }
}

/// Encodes bytes as lower-case hexadecimal, the form the QR column takes.
pub fn hex_lower(bytes: &[u8]) -> (hex: String)
    ensures
        hex@ == hex_lower_text(bytes@),
{
    let mut out: Vec<char> = Vec::new();
    let mut i: usize = 0;
    while i < bytes.len()
        invariant
            i <= bytes@.len(),
            out@ == hex_lower_text(bytes@.subrange(0, i as int)),
        decreases bytes@.len() - i,
    {
        let b = bytes[i];
        out.push(hex_digit_exec(b / 16));
        out.push(hex_digit_exec(b % 16));
        proof {
            let pre = bytes@.subrange(0, i + 1);
            assert(pre.drop_last() =~= bytes@.subrange(0, i as int));
            assert(pre.last() == b);
        }
        i = i + 1;
    }
    proof {
        assert(bytes@.subrange(0, bytes@.len() as int) =~= bytes@);
    }
    string_of(out.as_slice())
}

#[verifier::external_type_specification]
#[verifier::external_body]
pub struct ExQrCode(qrcode::QrCode);

/// Whether `qrcode::QrCode::new` can encode the UTF-8 bytes of `text`.
pub uninterp spec fn qr_encodable(text: Seq<char>) -> bool;

/// What rendering the QR code of `text` as a PNG image gives: the bytes of
/// the image, or `None` when the image cannot be written.
pub uninterp spec fn qr_png_output(text: Seq<char>) -> Option<Seq<u8>>;

/// A QR code made by `qrcode`, together with the text it encodes.
pub struct EncodedQr {
    code: qrcode::QrCode,
    source: Ghost<Seq<char>>,
}

impl View for EncodedQr {
    type V = Seq<char>;

    closed spec fn view(&self) -> Seq<char> {
        self.source@
    }
}

/// Trusted: `qrcode::QrCode::new(text.as_bytes())`, which picks the
/// smallest version at medium error correction. Claims only that success
/// depends on the text alone (it fails when the data fits no version); the
/// code it yields is remembered together with that text.
#[verifier::external_body]
fn qr_encode(text: &str) -> (r: Option<EncodedQr>)
    ensures
        r is Some == qr_encodable(text@),
        r matches Some(q) ==> q@ == text@,
{
    match qrcode::QrCode::new(text.as_bytes()) {
        Ok(code) => Some(EncodedQr { code, source: Ghost(text@) }),
        Err(_) => None,
    }
}

/// Bytes of an optional image.
pub open spec fn png_bytes(o: Option<Vec<u8>>) -> Option<Seq<u8>> {
    match o {
        Some(v) => Some(v@),
        None => None,
    }
}

/// The eight bytes every PNG file starts with.
pub open spec fn png_signature() -> Seq<u8> {
    seq![137u8, 80u8, 78u8, 71u8, 13u8, 10u8, 26u8, 10u8]
}

/// Whether `b` starts with the PNG signature.
pub open spec fn starts_as_png(b: Seq<u8>) -> bool {
    b.len() >= 8 && b.subrange(0, 8) == png_signature()
}

/// Trusted: renders a QR code to an 8-bit grey image with the default
/// renderer (`render::<image::Luma<u8>>().build()`) and encodes it as PNG
/// with `image::DynamicImage::write_to` into memory. Rendering and encoding
/// depend on the code alone, hence on the text it encodes, so the outcome is
/// named after that text; bytes that come back start with the PNG
/// signature (the `png` encoder writes it first). That encoding succeeds is
/// not claimed.
#[verifier::external_body]
fn qr_png(code: &EncodedQr) -> (r: Option<Vec<u8>>)
    ensures
        png_bytes(r) == qr_png_output(code@),
        r matches Some(b) ==> starts_as_png(b@),
{
    let img = code.code.render::<image::Luma<u8>>().build();
    let mut cursor = std::io::Cursor::new(Vec::new());
    match image::DynamicImage::ImageLuma8(img).write_to(&mut cursor, image::ImageFormat::Png) {
        Ok(()) => Some(cursor.into_inner()),
        Err(_) => None,
    }
}

/// Renders a QR string as a PNG image: `None` when the string cannot be
/// encoded as a QR code, else the rendered image (or `None` when it cannot
/// be written).
pub fn render_qr_png(data: &str) -> (png: Option<Vec<u8>>)
    ensures
        !qr_encodable(data@) ==> png is None,
        qr_encodable(data@) ==> png_bytes(png) == qr_png_output(data@),
        png matches Some(b) ==> starts_as_png(b@),
{
    match qr_encode(data) {
        Some(code) => qr_png(&code),
        None => None,
    }
}


/// The caption of an image or video message is what gets recorded as its
/// body (empty only when it has none), and the message counts as media.
pub proof fn lemma_media_caption_is_the_body(c: IncomingContent)
    ensures
        c.image matches Some(m) ==> recorded_content(c).1 && recorded_content(c).0 == (match m.caption {
            Some(t) => t@,
            None => Seq::<char>::empty(),
        }),
        c.image is None ==> (c.video matches Some(m) ==> recorded_content(c).1 && recorded_content(c).0 == (
        match m.caption {
            Some(t) => t@,
            None => Seq::<char>::empty(),
        })),
{
}


/// A text message (no image, video, audio, document or sticker) counts as
/// no media, has no MIME type, and records the start of its text: the
/// whole conversation text when it is at most 3999 characters long, else
/// its first 3999 characters; the extended text when there is no
/// conversation text.
pub proof fn lemma_text_message_body(c: IncomingContent)
    requires
        c.image is None,
        c.video is None,
        c.audio is None,
        c.document is None,
        !c.sticker,
    ensures
        !recorded_content(c).1,
        recorded_content(c).2.len() == 0,
        c.conversation matches Some(t) ==> ({
            let body = recorded_content(c).0;
            &&& body.len() == (if t@.len() <= 3999 { t@.len() } else { 3999 })
            &&& forall|k: int| 0 <= k < body.len() ==> body[k] == t@[k]
        }),
        c.conversation is None ==> (c.extended_text matches Some(Some(t)) ==> ({
            let body = recorded_content(c).0;
            &&& body.len() == (if t@.len() <= 3999 { t@.len() } else { 3999 })
            &&& forall|k: int| 0 <= k < body.len() ==> body[k] == t@[k]
        })),
        c.conversation is None ==> (!(c.extended_text matches Some(Some(_))) ==> recorded_content(c).0.len() == 0),
{
}

} // verus!
