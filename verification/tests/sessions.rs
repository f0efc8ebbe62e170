use whatsapp_rust_server::auth::{
    check_google_token, check_session_token, generate_token, restore_token, sanitize_token,
    secret_matches, session_segment_of, verify_path_token, GoogleAuthError, SessionAuthError,
    TokenError,
};
use whatsapp_rust_server::session::{
    extract_msg_content, hex_lower, on_event, qrcode_plan, render_qr_png, session_db_path, session_xml,
    start_action, starting_state, state_report, status_label, status_plan, EventRecord,
    IncomingContent, MediaPart, QrPlan, SessionEvent, SessionState, SessionStatus, StartAction,
    StatusPlan,
};
use whatsapp_rust_server::session_table::SessionTable;

fn text(s: &str) -> Option<Option<String>> {
    Some(Some(s.to_string()))
}

#[test]
fn token_roundtrip_and_checks() {
    assert!(matches!(generate_token("s1", "wrong", "SECRET"), Err(TokenError::InvalidSecretKey)));
    let g = generate_token("s1", "SECRET", "SECRET").unwrap();
    assert_eq!(g.full, format!("s1:{}", g.token));
    assert!(g.token.starts_with("$2b$10$"));
    assert!(!g.token.contains('/') && !g.token.contains('+'));
    assert!(bcrypt::verify("s1SECRET", &restore_token(&g.token)).unwrap());

    let path = "/api/s1/start-session";
    assert_eq!(check_session_token(path, &text(&g.token), &None, "SECRET"), Ok(()));
    let bearer = format!("Bearer {}", g.token);
    assert_eq!(check_session_token(path, &None, &text(&bearer), "SECRET"), Ok(()));
    let lower = format!("bEaReR {}", g.token);
    assert_eq!(check_session_token(path, &None, &text(&lower), "SECRET"), Ok(()));
    let embedded = format!("/api/s1:{}/status-session", g.token);
    assert_eq!(check_session_token(&embedded, &None, &None, "SECRET"), Ok(()));
    assert_eq!(
        check_session_token("/api/s2/start-session", &text(&g.token), &None, "SECRET"),
        Err(SessionAuthError::InvalidToken)
    );
    assert_eq!(
        check_session_token(path, &None, &None, "SECRET"),
        Err(SessionAuthError::TokenMissing)
    );
    assert_eq!(
        check_session_token(path, &Some(None), &text(&g.token), "SECRET"),
        Err(SessionAuthError::TokenMissing)
    );
    assert_eq!(
        check_session_token("/api//x", &text(&g.token), &None, "SECRET"),
        Err(SessionAuthError::SessionNotInformed)
    );
    assert_eq!(
        check_session_token(path, &text("garbage"), &None, "SECRET"),
        Err(SessionAuthError::InvalidToken)
    );
    assert!(verify_path_token("s1", &g.token, "SECRET"));
    assert!(!verify_path_token("s1", &g.token, "OTHER"));
}

#[test]
fn sanitize_and_restore() {
    assert_eq!(sanitize_token("$2b$10$ab/cd+ef"), "$2b$10$ab_cd-ef");
    assert_eq!(restore_token("$2b$10$ab_cd-ef"), "$2b$10$ab/cd+ef");
    assert_eq!(session_segment_of("/api/sess/qrcode-session"), "sess".chars().collect::<Vec<_>>());
    assert_eq!(session_segment_of("/api"), Vec::<char>::new());
    assert_eq!(session_segment_of("/api/last"), "last".chars().collect::<Vec<_>>());
    assert!(secret_matches("k", "k"));
    assert!(!secret_matches("k", "K"));
}

#[test]
fn google_token_check() {
    assert_eq!(check_google_token(&text("abc"), &None, "abc"), Ok(()));
    assert_eq!(check_google_token(&None, &text("Bearer abc"), "abc"), Ok(()));
    assert_eq!(check_google_token(&None, &None, "abc"), Err(GoogleAuthError::TokenNotProvided));
    assert_eq!(check_google_token(&text("abd"), &None, "abc"), Err(GoogleAuthError::InvalidToken));
    assert_eq!(check_google_token(&text(""), &text("abc"), "abc"), Err(GoogleAuthError::TokenNotProvided));
}

#[test]
fn labels_and_reports() {
    assert_eq!(status_label(&SessionStatus::Closed), "CLOSED");
    assert_eq!(status_label(&SessionStatus::Starting), "INITIALIZING");
    assert_eq!(status_label(&SessionStatus::WaitingQr), "QRCODE");
    assert_eq!(status_label(&SessionStatus::Connected), "CONNECTED");
    assert_eq!(
        session_xml("QRCODE", "2@abc"),
        "<root><status>QRCODE</status><urlcode>2@abc</urlcode><version>1.0.0</version></root>"
    );
    let st = SessionState { status: SessionStatus::Starting, qr: None };
    assert_eq!(
        state_report(&st),
        "<root><status>INITIALIZING</status><urlcode></urlcode><version>1.0.0</version></root>"
    );
}

#[test]
fn events_drive_the_state() {
    let st = starting_state();
    let (st, rec) = on_event("ofi1", st, &SessionEvent::PairingQrCode { code: "QR1".to_string() }, "2024-01-01 00:00:00");
    assert_eq!(st.status, SessionStatus::WaitingQr);
    assert_eq!(st.qr.as_deref(), Some("QR1"));
    assert!(matches!(rec, EventRecord::Nothing));
    let (st, rec) = on_event("ofi1", st, &SessionEvent::Connected, "2024-01-01 00:00:01");
    assert_eq!(st.status, SessionStatus::Connected);
    assert_eq!(st.qr, None);
    match rec {
        EventRecord::Lifecycle { row, officer_status } => {
            assert_eq!(officer_status, "CONECTADO");
            assert_eq!(row.tipo, "INI");
            assert_eq!(row.ofi, "ofi1");
            assert_eq!(row.fecha_hora, "2024-01-01 00:00:01");
            assert_eq!(row.mensaje, "");
        }
        _ => panic!("expected an INI row"),
    }
    let (st, rec) = on_event("ofi1", st, &SessionEvent::PairingQrCode { code: "QR2".to_string() }, "t0");
    assert!(matches!(rec, EventRecord::Nothing));
    let (st, rec) = on_event("ofi1", st, &SessionEvent::Disconnected, "t");
    assert_eq!(st.status, SessionStatus::Closed);
    assert_eq!(st.qr, None);
    assert!(matches!(rec, EventRecord::Nothing));
    let (st, rec) = on_event("ofi1", st, &SessionEvent::LoggedOut, "t2");
    assert_eq!(st.status, SessionStatus::Closed);
    match rec {
        EventRecord::Lifecycle { row, officer_status } => {
            assert_eq!(officer_status, "DESCONECTADO");
            assert_eq!(row.tipo, "DES");
            assert_eq!(row.mensaje, "SESSION CERRADA POR EL OFICIAL!!");
        }
        _ => panic!("expected a DES row"),
    }
}

fn plain(text: &str) -> IncomingContent {
    IncomingContent {
        image: None,
        video: None,
        audio: None,
        document: None,
        sticker: false,
        conversation: Some(text.to_string()),
        extended_text: None,
    }
}

#[test]
fn messages_are_recorded() {
    let st = SessionState { status: SessionStatus::Connected, qr: None };
    let ev = SessionEvent::Message {
        is_group: false,
        is_broadcast: false,
        sender_user: "5989".to_string(),
        chat_user: "5981".to_string(),
        is_from_me: true,
        timestamp: "2024-02-02 10:00:00".to_string(),
        content: plain("hola"),
    };
    let (st, rec) = on_event("ofi", st, &ev, "now");
    assert_eq!(st.status, SessionStatus::Connected);
    match rec {
        EventRecord::InsertMessage { row, numero_cliente } => {
            assert_eq!(row.nro_origen, "+5989");
            assert_eq!(row.nro_dest, "+5981");
            assert_eq!(row.propio, 1);
            assert_eq!(row.tipo, "MSG");
            assert_eq!(row.mensaje, "hola");
            assert_eq!(numero_cliente, "+5981");
        }
        _ => panic!("expected a message row"),
    }
    let group = SessionEvent::Message {
        is_group: true,
        is_broadcast: false,
        sender_user: "1".to_string(),
        chat_user: "2".to_string(),
        is_from_me: false,
        timestamp: "t".to_string(),
        content: plain("x"),
    };
    let (_, rec) = on_event("ofi", st, &group, "now");
    assert!(matches!(rec, EventRecord::Nothing));
}

#[test]
fn message_content_is_extracted() {
    let long: String = std::iter::repeat('a').take(5000).collect();
    let (body, media, mime) = extract_msg_content(&plain(&long));
    assert_eq!((body.chars().count(), media, mime.as_str()), (3999, false, ""));
    let mut img = plain("ignored");
    img.image = Some(MediaPart { caption: Some("foto".to_string()), mimetype: None });
    assert_eq!(extract_msg_content(&img), ("foto".to_string(), true, "image/jpeg".to_string()));
    let mut doc = plain("ignored");
    doc.document = Some(Some("application/pdf".to_string()));
    assert_eq!(extract_msg_content(&doc), ("".to_string(), true, "application/pdf".to_string()));
    let mut aud = plain("x");
    aud.audio = Some(None);
    assert_eq!(extract_msg_content(&aud).2, "audio/mpeg");
    let mut st = plain("x");
    st.sticker = true;
    assert_eq!(extract_msg_content(&st), ("".to_string(), true, "image/webp".to_string()));
    let mut ext = plain("x");
    ext.conversation = None;
    ext.extended_text = Some(Some("largo".to_string()));
    assert_eq!(extract_msg_content(&ext).0, "largo");
}

#[test]
fn start_status_and_qr_plans() {
    assert_eq!(start_action(None), StartAction::Create);
    assert_eq!(start_action(Some(SessionStatus::Closed)), StartAction::Create);
    assert_eq!(start_action(Some(SessionStatus::Starting)), StartAction::Reuse);
    assert!(matches!(status_plan(None, "1"), StatusPlan::Closed));
    let closed = SessionState { status: SessionStatus::Closed, qr: Some("q".to_string()) };
    assert!(matches!(status_plan(Some(&closed), "1"), StatusPlan::Closed));
    let waiting = SessionState { status: SessionStatus::WaitingQr, qr: Some("q".to_string()) };
    match status_plan(Some(&waiting), "77") {
        StatusPlan::Report { xml, store_qr } => {
            assert_eq!(xml, "<root><status>QRCODE</status><urlcode>q</urlcode><version>1.0.0</version></root>");
            assert_eq!(store_qr.as_deref(), Some("q"));
        }
        _ => panic!("expected a report"),
    }
    match status_plan(Some(&waiting), "") {
        StatusPlan::Report { store_qr, .. } => assert_eq!(store_qr, None),
        _ => panic!("expected a report"),
    }
    assert!(matches!(qrcode_plan(false, Some(&waiting)), QrPlan::Unauthorized));
    assert!(matches!(qrcode_plan(true, None), QrPlan::Closed));
    assert!(matches!(qrcode_plan(true, Some(&waiting)), QrPlan::Render(ref q) if q == "q"));
    let starting = starting_state();
    assert!(matches!(qrcode_plan(true, Some(&starting)), QrPlan::NoQr { status: "INITIALIZING" }));
}

#[test]
fn hex_and_qr_rendering() {
    assert_eq!(hex_lower(&[0x0a, 0xff, 0x00, 0x7b]), "0aff007b");
    assert_eq!(hex_lower(&[]), "");
    let png = render_qr_png("2@abcdef,ghijk").expect("QR renders");
    assert_eq!(&png[..8], &[0x89, b'P', b'N', b'G', 0x0d, 0x0a, 0x1a, 0x0a]);
    let too_long: String = std::iter::repeat('x').take(8000).collect();
    assert!(render_qr_png(&too_long).is_none());
}

#[test]
fn session_table_keeps_one_entry_per_name() {
    let mut t: SessionTable<u32> = SessionTable::new();
    assert!(t.get("a").is_none());
    t.insert("a".to_string(), 1);
    t.insert("b".to_string(), 2);
    t.insert("a".to_string(), 3);
    assert_eq!(t.get("a"), Some(&3));
    let mut names = t.names();
    names.sort();
    assert_eq!(names, vec!["a".to_string(), "b".to_string()]);
    assert_eq!(t.remove("a"), Some(3));
    assert_eq!(t.remove("a"), None);
    assert_eq!(t.names(), vec!["b".to_string()]);
}

#[test]
fn session_database_lives_in_sessions_dir() {
    for (dir, name) in [("./sessions", "ofi01"), ("/var/wa/", "x"), ("", "s")] {
        let expected = std::path::PathBuf::from(dir).join(format!("{name}.db"));
        assert_eq!(session_db_path(dir, name), expected.to_string_lossy());
    }
}
