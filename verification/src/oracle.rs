//! Records exchanged with the Oracle business tables, and the rules that
//! turn raw column values into them.

use vstd::prelude::*;
use crate::text::{chars_of, opt_text, trim, trim_chars};

verus! {

/// Oracle connection parameters.
#[derive(Clone, Debug)]
pub struct OracleConfig {
    pub user: String,
    pub password: String,
    pub url: String,
}

/// One recipient row of a campaign, as the send and resend queries return it.
#[derive(Debug)]
pub struct MsgRow {
    pub secuencia: i32,
    pub numero: String,
    pub nombre: String,
    /// The member number, rounded to an integer; `None` unless it is positive.
    pub socnro: Option<u64>,
    pub msg: String,
    pub msg2: Option<String>,
    pub msg3: Option<String>,
    pub msg2_chk: i32,
    pub msg3_chk: i32,
    pub img1_chk: i32,
    pub img2_chk: i32,
    pub img3_chk: i32,
    pub img1: Option<Vec<u8>>,
    pub img2: Option<Vec<u8>>,
    pub img3: Option<Vec<u8>>,
}

/// Data for a single WHATN002 history row (INI/DES/MSG).
#[derive(Debug)]
pub struct Whatn002Row {
    pub ofi: String,
    pub nro_origen: String,
    pub nro_dest: String,
    pub mensaje: String,
    pub fecha_hora: String,
    pub propio: i32,
    pub tipo: String,
    pub has_media: i32,
    pub mimetype: String,
    pub mediadata: String,
}

/// A text column read as optional: `None` when null or blank.
pub open spec fn optional_text(v: Option<Seq<char>>) -> Option<Seq<char>> {
    match v {
        Some(s) => if trim(s).len() == 0 {
            None
        } else {
            Some(s)
        },
        None => None,
    }
}

/// A nullable text column: blank values count as missing.
pub fn optional_str(value: Option<String>) -> (r: Option<String>)
    ensures
        match r {
            Some(s) => optional_text(opt_text(value)) == Some(s@),
            None => optional_text(opt_text(value)) is None,
        },
{
    match value {
        Some(s) => {
            let cs = chars_of(s.as_str());
            let t = trim_chars(cs.as_slice());
            if t.len() == 0 {
                None
            } else {
                Some(s)
            }
        },
        None => None,
    }
}

/// Raw column values of one recipient row, nulls still present.
pub struct MsgColumns {
    pub secuencia: i32,
    pub numero: String,
    pub nombre: Option<String>,
    pub socnro: Option<u64>,
    pub msg: Option<String>,
    pub msg2: Option<String>,
    pub msg3: Option<String>,
    pub msg2_chk: Option<i32>,
    pub msg3_chk: Option<i32>,
    pub img1_chk: Option<i32>,
    pub img2_chk: Option<i32>,
    pub img3_chk: Option<i32>,
    pub img1: Option<Vec<u8>>,
    pub img2: Option<Vec<u8>>,
    pub img3: Option<Vec<u8>>,
}

/// `v`, or `d` when null.
pub open spec fn or_default<T>(v: Option<T>, d: T) -> T {
    match v {
        Some(x) => x,
        None => d,
    }
}

fn i32_or_zero(v: Option<i32>) -> (r: i32)
    ensures
        r == or_default(v, 0i32),
{
    match v {
        Some(x) => x,
        None => 0,
    }
}

fn text_or_empty(v: Option<String>) -> (r: String)
    ensures
        r@ == or_default(opt_text(v), Seq::<char>::empty()),
{
    match v {
        Some(s) => s,
        None => String::new(),
    }
}

/// Builds a recipient row from its columns: missing name and message become
/// empty, blank alternative messages become `None`, missing flags become 0.
pub fn msg_row_from_columns(c: MsgColumns) -> (row: MsgRow)
    ensures
        row.secuencia == c.secuencia,
        row.numero@ == c.numero@,
        row.nombre@ == or_default(opt_text(c.nombre), Seq::<char>::empty()),
        row.socnro == c.socnro,
        row.msg@ == or_default(opt_text(c.msg), Seq::<char>::empty()),
        opt_text(row.msg2) == optional_text(opt_text(c.msg2)),
        opt_text(row.msg3) == optional_text(opt_text(c.msg3)),
        row.msg2_chk == or_default(c.msg2_chk, 0i32),
        row.msg3_chk == or_default(c.msg3_chk, 0i32),
        row.img1_chk == or_default(c.img1_chk, 0i32),
        row.img2_chk == or_default(c.img2_chk, 0i32),
        row.img3_chk == or_default(c.img3_chk, 0i32),
        row.img1 == c.img1,
        row.img2 == c.img2,
        row.img3 == c.img3,
{
    let msg2 = optional_str(c.msg2);
    let msg3 = optional_str(c.msg3);
    MsgRow {
        secuencia: c.secuencia,
        numero: c.numero,
        nombre: text_or_empty(c.nombre),
        socnro: c.socnro,
        msg: text_or_empty(c.msg),
        msg2,
        msg3,
        msg2_chk: i32_or_zero(c.msg2_chk),
        msg3_chk: i32_or_zero(c.msg3_chk),
        img1_chk: i32_or_zero(c.img1_chk),
        img2_chk: i32_or_zero(c.img2_chk),
        img3_chk: i32_or_zero(c.img3_chk),
        img1: c.img1,
        img2: c.img2,
        img3: c.img3,
    }
}

} // verus!
