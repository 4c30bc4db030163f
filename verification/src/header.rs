//! Decoding of the metadata document prefixed to each binary frame.
//!
//! The document is a JSON object with required fields `version`, `type`,
//! `count`, `layout` and `stride`, optional fields `frame_id`,
//! `timestamp`, `endianness`, `seq`, `is_last_chunk` and `compression`
//! (a `null` counts as absent), any other field ignored, and a repeated
//! field rejected except among the ignored ones. String fields are kept
//! as their unescaped UTF-8 bytes here; the public decoder turns them
//! into `String`s.

use vstd::prelude::*;
use crate::json::{
    sp_ws, sp_string, sp_number, sp_null, sp_true, sp_false, sp_skip_value, ws, parse_string,
    parse_number, lit_null, lit_true, lit_false, skip_value, at,
};

verus! {

/// The decoded header fields, over byte sequences.
pub ghost struct SpecHeader {
    pub version: Seq<u8>,
    pub msg_type: Seq<u8>,
    pub frame_id: Option<Seq<u8>>,
    pub timestamp: Option<u64>,
    pub count: u64,
    pub layout: Seq<u8>,
    pub stride: u64,
    pub endianness: Option<Seq<u8>>,
    pub seq_no: Option<u32>,
    pub is_last_chunk: Option<bool>,
    pub compression: Option<Seq<u8>>,
}

/// Accumulator while walking the object's fields.
pub ghost struct SpecAcc {
    pub version: Option<Seq<u8>>,
    pub msg_type: Option<Seq<u8>>,
    pub frame_id: Option<Seq<u8>>,
    pub timestamp: Option<u64>,
    pub count: Option<u64>,
    pub layout: Option<Seq<u8>>,
    pub stride: Option<u64>,
    pub endianness: Option<Seq<u8>>,
    pub seq_no: Option<u32>,
    pub is_last_chunk: Option<bool>,
    pub compression: Option<Seq<u8>>,
    pub seen_frame_id: bool,
    pub seen_timestamp: bool,
    pub seen_endianness: bool,
    pub seen_seq: bool,
    pub seen_last: bool,
    pub seen_compression: bool,
}

pub open spec fn acc_empty() -> SpecAcc {
    SpecAcc {
        version: None,
        msg_type: None,
        frame_id: None,
        timestamp: None,
        count: None,
        layout: None,
        stride: None,
        endianness: None,
        seq_no: None,
        is_last_chunk: None,
        compression: None,
        seen_frame_id: false,
        seen_timestamp: false,
        seen_endianness: false,
        seen_seq: false,
        seen_last: false,
        seen_compression: false,
    }
}

pub open spec fn key_version() -> Seq<u8> {
    seq![0x76u8, 0x65, 0x72, 0x73, 0x69, 0x6f, 0x6e]
}

pub open spec fn key_type() -> Seq<u8> {
    seq![0x74u8, 0x79, 0x70, 0x65]
}

pub open spec fn key_frame_id() -> Seq<u8> {
    seq![0x66u8, 0x72, 0x61, 0x6d, 0x65, 0x5f, 0x69, 0x64]
}

pub open spec fn key_timestamp() -> Seq<u8> {
    seq![0x74u8, 0x69, 0x6d, 0x65, 0x73, 0x74, 0x61, 0x6d, 0x70]
}

pub open spec fn key_count() -> Seq<u8> {
    seq![0x63u8, 0x6f, 0x75, 0x6e, 0x74]
}

pub open spec fn key_layout() -> Seq<u8> {
    seq![0x6cu8, 0x61, 0x79, 0x6f, 0x75, 0x74]
}

pub open spec fn key_stride() -> Seq<u8> {
    seq![0x73u8, 0x74, 0x72, 0x69, 0x64, 0x65]
}

pub open spec fn key_endianness() -> Seq<u8> {
    seq![0x65u8, 0x6e, 0x64, 0x69, 0x61, 0x6e, 0x6e, 0x65, 0x73, 0x73]
}

pub open spec fn key_seq() -> Seq<u8> {
    seq![0x73u8, 0x65, 0x71]
}

pub open spec fn key_is_last_chunk() -> Seq<u8> {
    seq![0x69u8, 0x73, 0x5f, 0x6c, 0x61, 0x73, 0x74, 0x5f, 0x63, 0x68, 0x75, 0x6e, 0x6b]
}

pub open spec fn key_compression() -> Seq<u8> {
    seq![0x63u8, 0x6f, 0x6d, 0x70, 0x72, 0x65, 0x73, 0x73, 0x69, 0x6f, 0x6e]
}

/// One field's value starting at `i`, entered into `acc` under `key`.
pub open spec fn sp_hvalue(s: Seq<u8>, i: int, acc: SpecAcc, key: Seq<u8>) -> Option<
    (SpecAcc, int),
> {
    if key == key_version() {
        match sp_string(s, i) {
            Some((v, j)) => if acc.version is None {
                Some((SpecAcc { version: Some(v), ..acc }, j))
            } else {
                None
            },
            None => None,
        }
    } else if key == key_type() {
        match sp_string(s, i) {
            Some((v, j)) => if acc.msg_type is None {
                Some((SpecAcc { msg_type: Some(v), ..acc }, j))
            } else {
                None
            },
            None => None,
        }
    } else if key == key_layout() {
        match sp_string(s, i) {
            Some((v, j)) => if acc.layout is None {
                Some((SpecAcc { layout: Some(v), ..acc }, j))
            } else {
                None
            },
            None => None,
        }
    } else if key == key_count() {
        match sp_number(s, i) {
            Some((nm, j)) => if nm.uval_ok && acc.count is None {
                Some((SpecAcc { count: Some(nm.uval), ..acc }, j))
            } else {
                None
            },
            None => None,
        }
    } else if key == key_stride() {
        match sp_number(s, i) {
            Some((nm, j)) => if nm.uval_ok && acc.stride is None {
                Some((SpecAcc { stride: Some(nm.uval), ..acc }, j))
            } else {
                None
            },
            None => None,
        }
    } else if key == key_frame_id() {
        if acc.seen_frame_id {
            None
        } else if sp_null(s, i) {
            Some((SpecAcc { seen_frame_id: true, ..acc }, i + 4))
        } else {
            match sp_string(s, i) {
                Some((v, j)) => Some(
                    (SpecAcc { frame_id: Some(v), seen_frame_id: true, ..acc }, j),
                ),
                None => None,
            }
        }
    } else if key == key_endianness() {
        if acc.seen_endianness {
            None
        } else if sp_null(s, i) {
            Some((SpecAcc { seen_endianness: true, ..acc }, i + 4))
        } else {
            match sp_string(s, i) {
                Some((v, j)) => Some(
                    (SpecAcc { endianness: Some(v), seen_endianness: true, ..acc }, j),
                ),
                None => None,
            }
        }
    } else if key == key_compression() {
        if acc.seen_compression {
            None
        } else if sp_null(s, i) {
            Some((SpecAcc { seen_compression: true, ..acc }, i + 4))
        } else {
            match sp_string(s, i) {
                Some((v, j)) => Some(
                    (SpecAcc { compression: Some(v), seen_compression: true, ..acc }, j),
                ),
                None => None,
            }
        }
    } else if key == key_timestamp() {
        if acc.seen_timestamp {
            None
        } else if sp_null(s, i) {
            Some((SpecAcc { seen_timestamp: true, ..acc }, i + 4))
        } else {
            match sp_number(s, i) {
                Some((nm, j)) => if nm.uval_ok {
                    Some((SpecAcc { timestamp: Some(nm.uval), seen_timestamp: true, ..acc }, j))
                } else {
                    None
                },
                None => None,
            }
        }
    } else if key == key_seq() {
        if acc.seen_seq {
            None
        } else if sp_null(s, i) {
            Some((SpecAcc { seen_seq: true, ..acc }, i + 4))
        } else {
            match sp_number(s, i) {
                Some((nm, j)) => if nm.uval_ok && nm.uval <= 0xFFFFFFFF {
                    Some(
                        (SpecAcc { seq_no: Some(nm.uval as u32), seen_seq: true, ..acc }, j),
                    )
                } else {
                    None
                },
                None => None,
            }
        }
    } else if key == key_is_last_chunk() {
        if acc.seen_last {
            None
        } else if sp_null(s, i) {
            Some((SpecAcc { seen_last: true, ..acc }, i + 4))
        } else if sp_true(s, i) {
            Some((SpecAcc { is_last_chunk: Some(true), seen_last: true, ..acc }, i + 4))
        } else if sp_false(s, i) {
            Some((SpecAcc { is_last_chunk: Some(false), seen_last: true, ..acc }, i + 5))
        } else {
            None
        }
    } else {
        match sp_skip_value(s, i) {
            Some(j) => Some((acc, j)),
            None => None,
        }
    }
}

/// The object's fields from the key at `i` to the closing brace,
/// folded into `acc`. `fuel` bounds the recursion; each field consumes
/// at least one byte, so a fuel of one more than the bytes left never
/// runs out.
pub open spec fn sp_hpairs(s: Seq<u8>, i: int, acc: SpecAcc, fuel: nat) -> Option<(SpecAcc, int)>
    decreases fuel,
{
    if fuel == 0 {
        None
    } else {
        match sp_string(s, i) {
            None => None,
            Some((key, j1)) => {
                let j2 = sp_ws(s, j1);
                if j2 >= s.len() || s[j2] != 0x3a {
                    None
                } else {
                    let j3 = sp_ws(s, j2 + 1);
                    match sp_hvalue(s, j3, acc, key) {
                        None => None,
                        Some((acc2, j4)) => {
                            let j5 = sp_ws(s, j4);
                            if j5 < s.len() && s[j5] == 0x2c {
                                let j6 = sp_ws(s, j5 + 1);
                                sp_hpairs(s, j6, acc2, (fuel - 1) as nat)
                            } else if j5 < s.len() && s[j5] == 0x7d {
                                Some((acc2, j5 + 1))
                            } else {
                                None
                            }
                        },
                    }
                }
            },
        }
    }
}

/// The header document: one JSON object, surrounded by nothing but
/// whitespace, with all required fields present.
pub open spec fn sp_header_doc(s: Seq<u8>) -> Option<SpecHeader> {
    let i0 = sp_ws(s, 0);
    if i0 >= s.len() || s[i0] != 0x7b {
        None
    } else {
        let i1 = sp_ws(s, i0 + 1);
        let pr = if i1 < s.len() && s[i1] == 0x7d {
            Some((acc_empty(), i1 + 1))
        } else {
            sp_hpairs(s, i1, acc_empty(), (s.len() + 1) as nat)
        };
        match pr {
            None => None,
            Some((acc, j)) => {
                if sp_ws(s, j) != s.len() {
                    None
                } else {
                    match (acc.version, acc.msg_type, acc.count, acc.layout, acc.stride) {
                        (Some(v), Some(t), Some(c), Some(l), Some(st)) => Some(
                            SpecHeader {
                                version: v,
                                msg_type: t,
                                frame_id: acc.frame_id,
                                timestamp: acc.timestamp,
                                count: c,
                                layout: l,
                                stride: st,
                                endianness: acc.endianness,
                                seq_no: acc.seq_no,
                                is_last_chunk: acc.is_last_chunk,
                                compression: acc.compression,
                            },
                        ),
                        _ => None,
                    }
                }
            },
        }
    }
}

pub open spec fn opt_bytes_view(o: Option<Vec<u8>>) -> Option<Seq<u8>> {
    match o {
        Some(v) => Some(v@),
        None => None,
    }
}

/// The header fields as decoded, strings still as unescaped bytes.
pub struct RawHeader {
    pub version: Vec<u8>,
    pub msg_type: Vec<u8>,
    pub frame_id: Option<Vec<u8>>,
    pub timestamp: Option<u64>,
    pub count: u64,
    pub layout: Vec<u8>,
    pub stride: u64,
    pub endianness: Option<Vec<u8>>,
    pub seq_no: Option<u32>,
    pub is_last_chunk: Option<bool>,
    pub compression: Option<Vec<u8>>,
}

impl View for RawHeader {
    type V = SpecHeader;

    open spec fn view(&self) -> SpecHeader {
        SpecHeader {
            version: self.version@,
            msg_type: self.msg_type@,
            frame_id: opt_bytes_view(self.frame_id),
            timestamp: self.timestamp,
            count: self.count,
            layout: self.layout@,
            stride: self.stride,
            endianness: opt_bytes_view(self.endianness),
            seq_no: self.seq_no,
            is_last_chunk: self.is_last_chunk,
            compression: opt_bytes_view(self.compression),
        }
    }
}

struct Acc {
    version: Option<Vec<u8>>,
    msg_type: Option<Vec<u8>>,
    frame_id: Option<Vec<u8>>,
    timestamp: Option<u64>,
    count: Option<u64>,
    layout: Option<Vec<u8>>,
    stride: Option<u64>,
    endianness: Option<Vec<u8>>,
    seq_no: Option<u32>,
    is_last_chunk: Option<bool>,
    compression: Option<Vec<u8>>,
    seen_frame_id: bool,
    seen_timestamp: bool,
    seen_endianness: bool,
    seen_seq: bool,
    seen_last: bool,
    seen_compression: bool,
}

impl View for Acc {
    type V = SpecAcc;

    closed spec fn view(&self) -> SpecAcc {
        SpecAcc {
            version: opt_bytes_view(self.version),
            msg_type: opt_bytes_view(self.msg_type),
            frame_id: opt_bytes_view(self.frame_id),
            timestamp: self.timestamp,
            count: self.count,
            layout: opt_bytes_view(self.layout),
            stride: self.stride,
            endianness: opt_bytes_view(self.endianness),
            seq_no: self.seq_no,
            is_last_chunk: self.is_last_chunk,
            compression: opt_bytes_view(self.compression),
            seen_frame_id: self.seen_frame_id,
            seen_timestamp: self.seen_timestamp,
            seen_endianness: self.seen_endianness,
            seen_seq: self.seen_seq,
            seen_last: self.seen_last,
            seen_compression: self.seen_compression,
        }
    }
}

fn acc_new() -> (r: Acc)
    ensures
        r@ == acc_empty(),
{
    Acc {
        version: None,
        msg_type: None,
        frame_id: None,
        timestamp: None,
        count: None,
        layout: None,
        stride: None,
        endianness: None,
        seq_no: None,
        is_last_chunk: None,
        compression: None,
        seen_frame_id: false,
        seen_timestamp: false,
        seen_endianness: false,
        seen_seq: false,
        seen_last: false,
        seen_compression: false,
    }
}

/// Compares a decoded key against a literal.
pub(crate) fn bytes_is(k: &Vec<u8>, lit: &[u8]) -> (r: bool)
    ensures
        r == (k@ == lit@),
{
    let n: usize = k.len();
    if n != lit.len() {
        proof {
            assert(k@.len() != lit@.len());
        }
        return false;
    }
    let mut idx: usize = 0;
    while idx < n
        invariant
            idx <= n,
            n == k@.len(),
            n == lit@.len(),
            forall|m: int| 0 <= m < idx ==> k@[m] == lit@[m],
        decreases n - idx,
    {
        if k[idx] != *vstd::slice::slice_index_get(lit, idx) {
            proof {
                assert(k@[idx as int] != lit@[idx as int]);
            }
            return false;
        }
        idx = idx + 1;
    }
    proof {
        assert(k@ =~= lit@);
    }
    true
}

/// Decodes one field value for `key` at `i` into the accumulator.
#[verifier::rlimit(100)]
fn hvalue(s: &[u8], i: usize, acc: Acc, key: &Vec<u8>) -> (r: Option<(Acc, usize)>)
    requires
        i <= s@.len(),
    ensures
        match r {
            Some((acc2, j)) => sp_hvalue(s@, i as int, acc@, key@) == Some((acc2@, j as int)) && i
                < j <= s@.len(),
            None => sp_hvalue(s@, i as int, acc@, key@) is None,
        },
{
    let n: usize = s.len();
    if bytes_is(key, &[0x76, 0x65, 0x72, 0x73, 0x69, 0x6f, 0x6e]) {
        proof {
            assert(key@ =~= key_version());
        }
        match parse_string(s, i) {
            Some((v, j)) => if acc.version.is_none() {
                Some((Acc { version: Some(v), ..acc }, j))
            } else {
                None
            },
            None => None,
        }
    } else if bytes_is(key, &[0x74, 0x79, 0x70, 0x65]) {
        proof {
            assert(key@ =~= key_type());
            assert(key@ != key_version());
        }
        match parse_string(s, i) {
            Some((v, j)) => if acc.msg_type.is_none() {
                Some((Acc { msg_type: Some(v), ..acc }, j))
            } else {
                None
            },
            None => None,
        }
    } else if bytes_is(key, &[0x6c, 0x61, 0x79, 0x6f, 0x75, 0x74]) {
        proof {
            assert(key@ =~= key_layout());
        }
        match parse_string(s, i) {
            Some((v, j)) => if acc.layout.is_none() {
                Some((Acc { layout: Some(v), ..acc }, j))
            } else {
                None
            },
            None => None,
        }
    } else if bytes_is(key, &[0x63, 0x6f, 0x75, 0x6e, 0x74]) {
        proof {
            assert(key@ =~= key_count());
        }
        match parse_number(s, i) {
            Some((nm, j)) => if nm.uval_ok && acc.count.is_none() {
                Some((Acc { count: Some(nm.uval), ..acc }, j))
            } else {
                None
            },
            None => None,
        }
    } else if bytes_is(key, &[0x73, 0x74, 0x72, 0x69, 0x64, 0x65]) {
        proof {
            assert(key@ =~= key_stride());
        }
        match parse_number(s, i) {
            Some((nm, j)) => if nm.uval_ok && acc.stride.is_none() {
                Some((Acc { stride: Some(nm.uval), ..acc }, j))
            } else {
                None
            },
            None => None,
        }
    } else if bytes_is(key, &[0x66, 0x72, 0x61, 0x6d, 0x65, 0x5f, 0x69, 0x64]) {
        proof {
            assert(key@ =~= key_frame_id());
        }
        if acc.seen_frame_id {
            None
        } else if lit_null(s, i) {
            Some((Acc { seen_frame_id: true, ..acc }, i + 4))
        } else {
            match parse_string(s, i) {
                Some((v, j)) => Some((Acc { frame_id: Some(v), seen_frame_id: true, ..acc }, j)),
                None => None,
            }
        }
    } else if bytes_is(key, &[0x65, 0x6e, 0x64, 0x69, 0x61, 0x6e, 0x6e, 0x65, 0x73, 0x73]) {
        proof {
            assert(key@ =~= key_endianness());
        }
        if acc.seen_endianness {
            None
        } else if lit_null(s, i) {
            Some((Acc { seen_endianness: true, ..acc }, i + 4))
        } else {
            match parse_string(s, i) {
                Some((v, j)) => Some(
                    (Acc { endianness: Some(v), seen_endianness: true, ..acc }, j),
                ),
                None => None,
            }
        }
    } else if bytes_is(key, &[0x63, 0x6f, 0x6d, 0x70, 0x72, 0x65, 0x73, 0x73, 0x69, 0x6f, 0x6e]) {
        proof {
            assert(key@ =~= key_compression());
        }
        if acc.seen_compression {
            None
        } else if lit_null(s, i) {
            Some((Acc { seen_compression: true, ..acc }, i + 4))
        } else {
            match parse_string(s, i) {
                Some((v, j)) => Some(
                    (Acc { compression: Some(v), seen_compression: true, ..acc }, j),
                ),
                None => None,
            }
        }
    } else if bytes_is(key, &[0x74, 0x69, 0x6d, 0x65, 0x73, 0x74, 0x61, 0x6d, 0x70]) {
        proof {
            assert(key@ =~= key_timestamp());
        }
        if acc.seen_timestamp {
            None
        } else if lit_null(s, i) {
            Some((Acc { seen_timestamp: true, ..acc }, i + 4))
        } else {
            match parse_number(s, i) {
                Some((nm, j)) => if nm.uval_ok {
                    Some((Acc { timestamp: Some(nm.uval), seen_timestamp: true, ..acc }, j))
                } else {
                    None
                },
                None => None,
            }
        }
    } else if bytes_is(key, &[0x73, 0x65, 0x71]) {
        proof {
            assert(key@ =~= key_seq());
        }
        if acc.seen_seq {
            None
        } else if lit_null(s, i) {
            Some((Acc { seen_seq: true, ..acc }, i + 4))
        } else {
            match parse_number(s, i) {
                Some((nm, j)) => if nm.uval_ok && nm.uval <= 0xFFFFFFFF {
                    Some((Acc { seq_no: Some(nm.uval as u32), seen_seq: true, ..acc }, j))
                } else {
                    None
                },
                None => None,
            }
        }
    } else if bytes_is(
        key,
        &[0x69, 0x73, 0x5f, 0x6c, 0x61, 0x73, 0x74, 0x5f, 0x63, 0x68, 0x75, 0x6e, 0x6b],
    ) {
        proof {
            assert(key@ =~= key_is_last_chunk());
        }
        if acc.seen_last {
            None
        } else if lit_null(s, i) {
            Some((Acc { seen_last: true, ..acc }, i + 4))
        } else if lit_true(s, i) {
            Some((Acc { is_last_chunk: Some(true), seen_last: true, ..acc }, i + 4))
        } else if lit_false(s, i) {
            Some((Acc { is_last_chunk: Some(false), seen_last: true, ..acc }, i + 5))
        } else {
            None
        }
    } else {
        proof {
            assert(key@ != key_version());
            assert(key@ != key_type());
            assert(key@ != key_layout());
            assert(key@ != key_count());
            assert(key@ != key_stride());
            assert(key@ != key_frame_id());
            assert(key@ != key_endianness());
            assert(key@ != key_compression());
            assert(key@ != key_timestamp());
            assert(key@ != key_seq());
            assert(key@ != key_is_last_chunk());
        }
        match skip_value(s, i) {
            Some(j) => Some((acc, j)),
            None => None,
        }
    }
}

/// Walks the fields from the key at `i` to the closing brace.
#[verifier::rlimit(100)]
fn hpairs(s: &[u8], i: usize, acc0: Acc) -> (r: Option<(Acc, usize)>)
    requires
        i <= s@.len(),
    ensures
        match r {
            Some((acc2, j)) => sp_hpairs(s@, i as int, acc0@, (s@.len() + 1) as nat) == Some(
                (acc2@, j as int),
            ) && j <= s@.len(),
            None => sp_hpairs(s@, i as int, acc0@, (s@.len() + 1) as nat) is None,
        },
{
    let n: usize = s.len();
    let mut acc = acc0;
    let mut j: usize = i;
    let ghost fuel: nat = (n + 1) as nat;
    let ghost mut f: nat = fuel;
    loop
        invariant
            j <= n,
            n == s@.len(),
            f >= n + 1 - j,
            f <= fuel,
            fuel == (n + 1) as nat,
            sp_hpairs(s@, i as int, acc0@, fuel) == sp_hpairs(s@, j as int, acc@, f),
        decreases f,
    {
        proof {
            assert(f > 0);
        }
        let kr = parse_string(s, j);
        if kr.is_none() {
            return None;
        }
        let (key, j1) = kr.unwrap();
        let j2 = ws(s, j1);
        if j2 >= n || at(s, j2) != 0x3a {
            return None;
        }
        let j3 = ws(s, j2 + 1);
        let vr = hvalue(s, j3, acc, &key);
        if vr.is_none() {
            return None;
        }
        let (acc2, j4) = vr.unwrap();
        let j5 = ws(s, j4);
        if j5 < n && at(s, j5) == 0x2c {
            let j6 = ws(s, j5 + 1);
            acc = acc2;
            proof {
                f = (f - 1) as nat;
            }
            j = j6;
        } else if j5 < n && at(s, j5) == 0x7d {
            return Some((acc2, j5 + 1));
        } else {
            return None;
        }
    }
}

/// Decodes the whole header document.
pub(crate) fn parse_header_doc(s: &[u8]) -> (r: Option<RawHeader>)
    ensures
        match r {
            Some(h) => sp_header_doc(s@) == Some(h@),
            None => sp_header_doc(s@) is None,
        },
{
    let n: usize = s.len();
    let i0 = ws(s, 0);
    if i0 >= n || at(s, i0) != 0x7b {
        return None;
    }
    let i1 = ws(s, i0 + 1);
    let pr: Option<(Acc, usize)> = if i1 < n && at(s, i1) == 0x7d {
        Some((acc_new(), i1 + 1))
    } else {
        hpairs(s, i1, acc_new())
    };
    match pr {
        None => None,
        Some((acc, j)) => {
            if ws(s, j) != n {
                return None;
            }
            let Acc {
                version,
                msg_type,
                frame_id,
                timestamp,
                count,
                layout,
                stride,
                endianness,
                seq_no,
                is_last_chunk,
                compression,
                ..
            } = acc;
            match (version, msg_type, count, layout, stride) {
                (Some(v), Some(t), Some(c), Some(l), Some(st)) => Some(
                    RawHeader {
                        version: v,
                        msg_type: t,
                        frame_id,
                        timestamp,
                        count: c,
                        layout: l,
                        stride: st,
                        endianness,
                        seq_no,
                        is_last_chunk,
                        compression,
                    },
                ),
                _ => None,
            }
        },
    }
}

} // verus!
