use whatsapp_rust_server::messages::{
    contact_name, contact_phone, delivery_status, format_socnro, gx_precheck, inter_message_delay,
    pick_content, prepare_row, retry_step, GxError, RetryStep, campaign_start, campaign_step,
    CampaignAction, CampaignEvent, CampaignPhase,
};
use whatsapp_rust_server::oracle::{msg_row_from_columns, optional_str, MsgColumns, MsgRow};
use whatsapp_rust_server::phone::{format_phone, normalize_phone, PhoneError};
use whatsapp_rust_server::session::SessionStatus;

fn row(msg2_chk: i32, msg3_chk: i32) -> MsgRow {
    MsgRow {
        secuencia: 1,
        numero: "16502530000".to_string(),
        nombre: "Ana".to_string(),
        socnro: None,
        msg: "uno".to_string(),
        msg2: Some("dos".to_string()),
        msg3: Some("tres".to_string()),
        msg2_chk,
        msg3_chk,
        img1_chk: 1,
        img2_chk: 0,
        img3_chk: 1,
        img1: Some(vec![1, 2, 3]),
        img2: Some(vec![4]),
        img3: None,
    }
}

#[test]
fn rotation_over_three_variants() {
    let r = row(1, 1);
    let mut turno = 0u8;
    let seen: Vec<(String, Option<Vec<u8>>)> = (0..4).map(|_| pick_content(&r, &mut turno)).collect();
    assert_eq!(seen[0], ("uno".to_string(), Some(vec![1, 2, 3])));
    assert_eq!(seen[1], ("dos".to_string(), None));
    assert_eq!(seen[2], ("tres".to_string(), None));
    assert_eq!(seen[3], ("uno".to_string(), Some(vec![1, 2, 3])));
    assert_eq!(turno, 1);
}

#[test]
fn rotation_with_only_second_variant() {
    let r = row(1, 0);
    let mut turno = 0u8;
    assert_eq!(pick_content(&r, &mut turno).0, "uno");
    assert_eq!(pick_content(&r, &mut turno).0, "dos");
    assert_eq!(turno, 0);
    assert_eq!(pick_content(&r, &mut turno).0, "uno");
}

#[test]
fn rotation_with_only_third_variant() {
    let mut r = row(0, 1);
    r.msg3 = None;
    let mut turno = 0u8;
    assert_eq!(pick_content(&r, &mut turno).0, "uno");
    assert_eq!(pick_content(&r, &mut turno).0, "uno");
    assert_eq!(turno, 0);
}

#[test]
fn single_variant_keeps_turn() {
    let r = row(0, 0);
    let mut turno = 2u8;
    assert_eq!(pick_content(&r, &mut turno), ("uno".to_string(), Some(vec![1, 2, 3])));
    assert_eq!(turno, 2);
}

#[test]
fn socnro_is_formatted() {
    assert_eq!(format_socnro(322620), "32-262/0");
    assert_eq!(format_socnro(5), "00-000/5");
    assert_eq!(format_socnro(1234567), "123-456/7");
    assert_eq!(contact_name("Ana", Some(322620)), "Ana - 32-262/0");
    assert_eq!(contact_name("Ana", None), "Ana");
}

#[test]
fn contact_phone_from_jid() {
    assert_eq!(contact_phone("16502530000@c.us"), "+16502530000");
    assert_eq!(contact_phone("1@c.us@c.us"), "+1");
    assert_eq!(contact_phone("123"), "+123");
}

#[test]
fn phones_are_formatted_and_normalized() {
    assert_eq!(format_phone(" +1 (650) 253-0000 ").unwrap(), "16502530000@c.us");
    assert_eq!(format_phone("16502530000@c.us").unwrap(), "16502530000@c.us");
    assert_eq!(normalize_phone("1 650 253 0000"), Some("+16502530000".to_string()));
    assert_eq!(format_phone("abc"), Err(PhoneError::Empty));
    assert_eq!(format_phone("@16502530000"), Err(PhoneError::Empty));
    assert!(format_phone("+").is_err());
    assert!(format_phone("1").is_err());
    assert_eq!(normalize_phone("   "), None);
}

#[test]
fn prepared_row_carries_contact_data() {
    let mut r = row(0, 0);
    r.socnro = Some(322620);
    let p = prepare_row(&r).unwrap();
    assert_eq!(p.jid, "16502530000@c.us");
    assert_eq!(p.contact_phone, "+16502530000");
    assert_eq!(p.contact_name, "Ana - 32-262/0");
    r.numero = "xx".to_string();
    assert!(prepare_row(&r).is_err());
}

#[test]
fn delays_and_retries() {
    assert_eq!(inter_message_delay(5, 0), 0);
    assert_eq!(inter_message_delay(5, 3), 5);
    assert_eq!(inter_message_delay(4, 4), 4);
    for _ in 0..50 {
        let d = inter_message_delay(2, 6);
        assert!((2..=6).contains(&d));
    }
    assert_eq!(retry_step(0, 2, true), RetryStep::Delivered);
    assert_eq!(retry_step(1, 2, false), RetryStep::RetryAfterPause);
    assert_eq!(retry_step(2, 2, false), RetryStep::GiveUp);
    assert_eq!(delivery_status(true), "ENV");
    assert_eq!(delivery_status(false), "FAL");
}

#[test]
fn gx_requests_need_a_connected_session() {
    assert_eq!(gx_precheck(None), Err(GxError::SessionNotFound));
    assert_eq!(gx_precheck(Some(SessionStatus::WaitingQr)), Err(GxError::SessionNotConnected));
    assert_eq!(gx_precheck(Some(SessionStatus::Connected)), Ok(()));
}

#[test]
fn columns_become_a_row() {
    assert_eq!(optional_str(Some("  ".to_string())), None);
    assert_eq!(optional_str(Some(" x ".to_string())), Some(" x ".to_string()));
    assert_eq!(optional_str(None), None);
    let r = msg_row_from_columns(MsgColumns {
        secuencia: 7,
        numero: "598".to_string(),
        nombre: None,
        socnro: Some(3),
        msg: None,
        msg2: Some("\t".to_string()),
        msg3: Some("tres".to_string()),
        msg2_chk: None,
        msg3_chk: Some(1),
        img1_chk: None,
        img2_chk: Some(1),
        img3_chk: None,
        img1: None,
        img2: Some(vec![9]),
        img3: None,
    });
    assert_eq!(r.secuencia, 7);
    assert_eq!(r.nombre, "");
    assert_eq!(r.msg, "");
    assert_eq!(r.msg2, None);
    assert_eq!(r.msg3, Some("tres".to_string()));
    assert_eq!((r.msg2_chk, r.msg3_chk, r.img1_chk, r.img2_chk, r.img3_chk), (0, 1, 0, 1, 0));
    assert_eq!(r.img2, Some(vec![9]));
}

fn drive(rows: &Vec<MsgRow>, jid_ok: bool, attempts: &[bool], dsd: u64, hst: u64) -> Vec<String> {
    let (mut state, mut action) = campaign_start(rows);
    let mut log = Vec::new();
    let mut tries = attempts.iter();
    for _ in 0..100 {
        let event = match action {
            CampaignAction::Done => {
                log.push("done".to_string());
                return log;
            }
            CampaignAction::Prepare { jid, .. } => {
                log.push(format!("prepare {jid}"));
                CampaignEvent::JidChecked(jid_ok)
            }
            CampaignAction::Send { text, .. } => {
                log.push(format!("send {text}"));
                CampaignEvent::Attempted(*tries.next().unwrap_or(&true))
            }
            CampaignAction::RetryAfterPause => {
                log.push("retry".to_string());
                CampaignEvent::Attempted(*tries.next().unwrap_or(&true))
            }
            CampaignAction::Mark { secuencia, status } => {
                log.push(format!("mark {secuencia} {status}"));
                CampaignEvent::Marked
            }
            CampaignAction::Sleep(d) => {
                log.push(format!("sleep {d}"));
                CampaignEvent::Slept
            }
        };
        let next = campaign_step(rows, state, event, dsd, hst, 2);
        state = next.0;
        action = next.1;
    }
    panic!("campaign did not finish");
}

#[test]
fn campaign_sends_marks_and_pauses_between_rows() {
    let mut bad = row(0, 0);
    bad.secuencia = 2;
    bad.numero = "abc".to_string();
    let mut second = row(1, 0);
    second.secuencia = 3;
    let rows = vec![row(1, 0), bad, second];
    assert_eq!(
        drive(&rows, true, &[true, false, false, false], 5, 5),
        vec![
            "prepare 16502530000@c.us", "send uno", "mark 1 ENV", "sleep 5",
            "mark 2 FAL",
            "prepare 16502530000@c.us", "send dos", "retry", "retry", "mark 3 FAL", "done",
        ]
    );
}

#[test]
fn campaign_marks_unusable_ids_and_never_sleeps_after_the_last_row() {
    let rows = vec![row(0, 0)];
    assert_eq!(drive(&rows, false, &[], 3, 3), vec!["prepare 16502530000@c.us", "mark 1 FAL", "done"]);
    assert_eq!(drive(&rows, true, &[true], 3, 3), vec!["prepare 16502530000@c.us", "send uno", "mark 1 ENV", "done"]);
    assert_eq!(drive(&vec![], true, &[], 3, 3), vec!["done"]);
    let (state, _) = campaign_start(&rows);
    let (after, action) = campaign_step(&rows, state, CampaignEvent::Slept, 0, 0, 2);
    assert!(matches!(action, CampaignAction::Done));
    assert_eq!(after, state);
    assert_eq!(state.phase, CampaignPhase::AwaitJid);
}
