//! Public decoding interface: frame types, the binary frame decoder and
//! the JSON frame decoder.

use vstd::prelude::*;
use crate::bytes::spec_le_u32;
use crate::payload::{spec_point_at, spec_rec_size, conf_payload_complete};
use crate::header::SpecHeader;
use vstd::utf8::{valid_utf8, decode_utf8};

verus! {

/// A point's three coordinates as IEEE-754 binary32 bit patterns, in the
/// order x, y, z, exactly as they stand in the binary wire format. This
/// crate never interprets them as numbers; the rendering layer does.
#[derive(Clone, Copy, PartialEq, Eq, Structural, Debug)]
pub struct Point {
    pub x: u32,
    pub y: u32,
    pub z: u32,
}

/// A point from the JSON format: each coordinate is the decimal number
/// the producer wrote, kept exactly as sign, significand and base-10
/// exponent. Turning it into a machine float is the rendering layer's
/// business.
#[derive(Clone, Copy, PartialEq, Eq, Structural, Debug)]
pub struct DecPoint {
    pub x: crate::json::JNum,
    pub y: crate::json::JNum,
    pub z: crate::json::JNum,
}

/// A decoded point of either wire format, kept lossless.
#[derive(Clone, Copy, PartialEq, Eq, Structural, Debug)]
pub enum FramePoint {
    Bin(Point),
    Json(DecPoint),
}

/// An 8-bit-per-channel color.
#[derive(Clone, Copy, PartialEq, Eq, Structural, Debug)]
pub struct Color {
    pub r: u8,
    pub g: u8,
    pub b: u8,
}

/// Why a buffer failed to decode.
#[derive(Debug)]
pub enum DecodeError {
    /// The header or JSON document is structurally invalid.
    Format,
    /// The declared count and stride ask for more payload bytes than the
    /// buffer holds.
    TruncatedPayload,
    /// The header names a layout this decoder does not handle.
    UnsupportedLayout(String),
}

/// The metadata record prefixed to each binary frame.
#[derive(Debug)]
pub struct Header {
    pub version: String,
    pub msg_type: String,
    pub frame_id: Option<String>,
    pub timestamp: Option<u64>,
    pub count: usize,
    pub layout: String,
    pub stride: usize,
    pub endianness: Option<String>,
    pub seq: Option<u32>,
    pub is_last_chunk: Option<bool>,
    pub compression: Option<String>,
}

/// One decoded frame: points with an optional parallel color sequence
/// and optional producer metadata.
#[derive(Debug)]
pub struct LidarFrame {
    pub points: Vec<FramePoint>,
    pub colors: Option<Vec<Color>>,
    pub timestamp: Option<u64>,
    pub frame_id: Option<String>,
}

impl LidarFrame {
    /// When colors are present they are index-aligned with the points.
    pub open spec fn wf(self) -> bool {
        match self.colors {
            Some(cs) => cs@.len() == self.points@.len(),
            None => true,
        }
    }
}

/// The layout name for plain packed points.
pub open spec fn layout_xyz() -> Seq<u8> {
    seq![0x66u8, 0x6c, 0x6f, 0x61, 0x74, 0x33, 0x32, 0x5f, 0x78, 0x79, 0x7a]
}

/// The layout name for points followed by a confidence byte.
pub open spec fn layout_xyz_conf() -> Seq<u8> {
    seq![
        0x66u8,
        0x6c,
        0x6f,
        0x61,
        0x74,
        0x33,
        0x32,
        0x5f,
        0x78,
        0x79,
        0x7a,
        0x5f,
        0x63,
        0x6f,
        0x6e,
        0x66,
    ]
}

/// The header document decoded from a binary frame buffer: the first
/// four bytes give the document's length, the document follows it.
pub open spec fn sp_frame_header(buf: Seq<u8>) -> Option<SpecHeader> {
    if buf.len() < 4 {
        None
    } else {
        let hl = spec_le_u32(buf, 0) as int;
        if buf.len() < 4 + hl {
            None
        } else {
            crate::header::sp_header_doc(buf.subrange(4, 4 + hl))
        }
    }
}

/// The payload bytes of a binary frame buffer.
pub open spec fn sp_frame_payload(buf: Seq<u8>) -> Seq<u8> {
    buf.subrange(4 + spec_le_u32(buf, 0) as int, buf.len() as int)
}

pub open spec fn opt_valid_utf8(o: Option<Seq<u8>>) -> bool {
    match o {
        Some(b) => valid_utf8(b),
        None => true,
    }
}

/// All string fields hold well-formed UTF-8 and the declared sizes fit
/// the machine. A header that fails this is rejected as malformed.
pub open spec fn header_ok(f: SpecHeader) -> bool {
    &&& valid_utf8(f.version)
    &&& valid_utf8(f.msg_type)
    &&& valid_utf8(f.layout)
    &&& opt_valid_utf8(f.frame_id)
    &&& opt_valid_utf8(f.endianness)
    &&& opt_valid_utf8(f.compression)
    &&& f.count <= usize::MAX as u64
    &&& f.stride <= usize::MAX as u64
}

pub open spec fn opt_str_matches(s: Option<String>, b: Option<Seq<u8>>) -> bool {
    match (s, b) {
        (Some(t), Some(bb)) => t@ == decode_utf8(bb),
        (None, None) => true,
        _ => false,
    }
}

/// The public `Header` carries exactly the decoded fields, its strings
/// decoded from their UTF-8 bytes.
pub open spec fn header_matches(h: Header, f: SpecHeader) -> bool {
    &&& h.version@ == decode_utf8(f.version)
    &&& h.msg_type@ == decode_utf8(f.msg_type)
    &&& opt_str_matches(h.frame_id, f.frame_id)
    &&& h.timestamp == f.timestamp
    &&& h.count == f.count
    &&& h.layout@ == decode_utf8(f.layout)
    &&& h.stride == f.stride
    &&& opt_str_matches(h.endianness, f.endianness)
    &&& h.seq == f.seq_no
    &&& h.is_last_chunk == f.is_last_chunk
    &&& opt_str_matches(h.compression, f.compression)
}

/// What `decode_binary` returns on success: the canonical frame built
/// from the buffer's header and payload, confidences turned into
/// grayscale colors.
pub open spec fn frame_from_binary(buf: Seq<u8>, fr: LidarFrame) -> bool {
    &&& (sp_frame_header(buf) matches Some(f))
    &&& ({
        let f = sp_frame_header(buf).unwrap();
        let p = sp_frame_payload(buf);
        &&& header_ok(f)
        &&& fr.timestamp == f.timestamp
        &&& (match (fr.frame_id, f.frame_id) {
            (Some(a), Some(b)) => a@ == decode_utf8(b),
            (None, None) => true,
            _ => false,
        })
        &&& fr.points@.len() == f.count
        &&& if f.layout == layout_xyz() {
            &&& fr.colors is None
            &&& f.count * 12 <= p.len()
            &&& forall|k: int|
                0 <= k < f.count ==> fr.points@[k] == FramePoint::Bin(spec_point_at(p, k * 12))
        } else {
            &&& f.layout == layout_xyz_conf()
            &&& conf_payload_complete(p.len() as int, f.count as int, f.stride as int)
            &&& (fr.colors matches Some(cs))
            &&& fr.colors.unwrap()@.len() == f.count
            &&& forall|k: int|
                0 <= k < f.count ==> fr.points@[k] == FramePoint::Bin(
                    spec_point_at(p, k * spec_rec_size(f.stride as int)),
                )
            &&& forall|k: int|
                0 <= k < f.count ==> fr.colors.unwrap()@[k] == (Color {
                    r: p[k * spec_rec_size(f.stride as int) + 12],
                    g: p[k * spec_rec_size(f.stride as int) + 12],
                    b: p[k * spec_rec_size(f.stride as int) + 12],
                })
        }
    })
}

/// Which error a binary frame buffer produces, and exactly when.
pub open spec fn binary_decode_error(buf: Seq<u8>, e: DecodeError) -> bool {
    match e {
        DecodeError::Format => sp_frame_header(buf) is None || !header_ok(
            sp_frame_header(buf).unwrap(),
        ),
        DecodeError::UnsupportedLayout(l) => {
            &&& (sp_frame_header(buf) matches Some(f))
            &&& header_ok(sp_frame_header(buf).unwrap())
            &&& sp_frame_header(buf).unwrap().layout != layout_xyz()
            &&& sp_frame_header(buf).unwrap().layout != layout_xyz_conf()
            &&& l@ == decode_utf8(sp_frame_header(buf).unwrap().layout)
        },
        DecodeError::TruncatedPayload => {
            &&& (sp_frame_header(buf) matches Some(f))
            &&& header_ok(sp_frame_header(buf).unwrap())
            &&& ({
                let f = sp_frame_header(buf).unwrap();
                let p = sp_frame_payload(buf);
                ||| (f.layout == layout_xyz() && f.count * 12 > p.len())
                ||| (f.layout == layout_xyz_conf() && !conf_payload_complete(
                    p.len() as int,
                    f.count as int,
                    f.stride as int,
                ))
            })
        },
    }
}

/// What `decode_json` returns on success: the message's points and
/// colors, in order, with no metadata.
pub open spec fn frame_from_json(buf: Seq<u8>, fr: LidarFrame) -> bool {
    &&& (crate::cloud::sp_lidar_doc(buf) matches Some(d))
    &&& ({
        let (pts, cols) = crate::cloud::sp_lidar_doc(buf).unwrap();
        &&& fr.points@.len() == pts.len()
        &&& forall|k: int| 0 <= k < pts.len() ==> fr.points@[k] == FramePoint::Json(pts[k])
        &&& (match fr.colors {
            Some(cs) => cs@ == cols,
            None => false,
        })
        &&& fr.timestamp is None
        &&& fr.frame_id is None
    })
}

/// Relies on `String::from_utf8`: it succeeds exactly on well-formed
/// UTF-8 input, and the resulting string then holds those very bytes,
/// decoded.
#[verifier::external_body]
fn string_from_utf8(b: Vec<u8>) -> (r: Option<String>)
    ensures
        match r {
            Some(t) => valid_utf8(b@) && t@ == decode_utf8(b@),
            None => !valid_utf8(b@),
        },
{
    match String::from_utf8(b) {
        Ok(t) => Some(t),
        Err(_) => None,
    }
}

fn opt_string_from_utf8(b: Option<Vec<u8>>) -> (r: Option<Option<String>>)
    ensures
        match r {
            Some(s) => opt_valid_utf8(crate::header::opt_bytes_view(b)) && opt_str_matches(
                s,
                crate::header::opt_bytes_view(b),
            ),
            None => !opt_valid_utf8(crate::header::opt_bytes_view(b)),
        },
{
    match b {
        None => Some(None),
        Some(v) => match string_from_utf8(v) {
            Some(t) => Some(Some(t)),
            None => None,
        },
    }
}

/// Builds the public header from the raw fields; fails on ill-formed
/// UTF-8 or a count or stride beyond the machine's sizes.
fn raw_to_header(raw: crate::header::RawHeader) -> (r: Option<Header>)
    ensures
        match r {
            Some(h) => header_ok(raw@) && header_matches(h, raw@),
            None => !header_ok(raw@),
        },
{
    let crate::header::RawHeader {
        version,
        msg_type,
        frame_id,
        timestamp,
        count,
        layout,
        stride,
        endianness,
        seq_no,
        is_last_chunk,
        compression,
    } = raw;
    if count > usize::MAX as u64 || stride > usize::MAX as u64 {
        return None;
    }
    let version = match string_from_utf8(version) {
        Some(t) => t,
        None => {
            return None;
        },
    };
    let msg_type = match string_from_utf8(msg_type) {
        Some(t) => t,
        None => {
            return None;
        },
    };
    let layout = match string_from_utf8(layout) {
        Some(t) => t,
        None => {
            return None;
        },
    };
    let frame_id = match opt_string_from_utf8(frame_id) {
        Some(s) => s,
        None => {
            return None;
        },
    };
    let endianness = match opt_string_from_utf8(endianness) {
        Some(s) => s,
        None => {
            return None;
        },
    };
    let compression = match opt_string_from_utf8(compression) {
        Some(s) => s,
        None => {
            return None;
        },
    };
    Some(
        Header {
            version,
            msg_type,
            frame_id,
            timestamp,
            count: count as usize,
            layout,
            stride: stride as usize,
            endianness,
            seq: seq_no,
            is_last_chunk,
            compression,
        },
    )
}

/// Decodes a binary frame buffer: a 32-bit little-endian header length,
/// the header document, then the packed payload, decoded according to
/// the header's layout. The payload is never read past the buffer's
/// end, whatever the declared count and stride.
pub fn parse_frame(buf: &[u8]) -> (r: Result<(Header, Vec<Point>, Option<Vec<u8>>), DecodeError>)
    ensures
        match r {
            Ok((h, pts, confs)) => {
                &&& sp_frame_header(buf@) matches Some(f)
                &&& header_ok(sp_frame_header(buf@).unwrap())
                &&& header_matches(h, sp_frame_header(buf@).unwrap())
                &&& ({
                    let f = sp_frame_header(buf@).unwrap();
                    let p = sp_frame_payload(buf@);
                    if f.layout == layout_xyz() {
                        &&& confs is None
                        &&& f.count * 12 <= p.len()
                        &&& pts@.len() == f.count
                        &&& forall|k: int|
                            0 <= k < f.count ==> pts@[k] == spec_point_at(p, k * 12)
                    } else {
                        &&& f.layout == layout_xyz_conf()
                        &&& conf_payload_complete(
                            p.len() as int,
                            f.count as int,
                            f.stride as int,
                        )
                        &&& pts@.len() == f.count
                        &&& confs matches Some(cs)
                        &&& confs.unwrap()@.len() == f.count
                        &&& forall|k: int|
                            0 <= k < f.count ==> pts@[k] == spec_point_at(
                                p,
                                k * spec_rec_size(f.stride as int),
                            )
                        &&& forall|k: int|
                            0 <= k < f.count ==> confs.unwrap()@[k] == p[k * spec_rec_size(
                                f.stride as int,
                            ) + 12]
                    }
                })
            },
            Err(e) => binary_decode_error(buf@, e),
        },
{
    let n: usize = buf.len();
    if n < 4 {
        return Err(DecodeError::Format);
    }
    let hl = crate::bytes::le_u32_at(buf, 0) as usize;
    if n - 4 < hl {
        return Err(DecodeError::Format);
    }
    let hbytes = vstd::slice::slice_subrange(buf, 4, 4 + hl);
    let payload = vstd::slice::slice_subrange(buf, 4 + hl, n);
    let raw = match crate::header::parse_header_doc(hbytes) {
        None => {
            return Err(DecodeError::Format);
        },
        Some(raw) => raw,
    };
    let is_xyz = crate::header::bytes_is(
        &raw.layout,
        &[0x66, 0x6c, 0x6f, 0x61, 0x74, 0x33, 0x32, 0x5f, 0x78, 0x79, 0x7a],
    );
    let is_conf = crate::header::bytes_is(
        &raw.layout,
        &[
            0x66,
            0x6c,
            0x6f,
            0x61,
            0x74,
            0x33,
            0x32,
            0x5f,
            0x78,
            0x79,
            0x7a,
            0x5f,
            0x63,
            0x6f,
            0x6e,
            0x66,
        ],
    );
    proof {
        assert(layout_xyz() =~= seq![
            0x66u8, 0x6c, 0x6f, 0x61, 0x74, 0x33, 0x32, 0x5f, 0x78, 0x79, 0x7a,
        ]);
        assert(layout_xyz_conf() =~= seq![
            0x66u8,
            0x6c,
            0x6f,
            0x61,
            0x74,
            0x33,
            0x32,
            0x5f,
            0x78,
            0x79,
            0x7a,
            0x5f,
            0x63,
            0x6f,
            0x6e,
            0x66,
        ]);
    }
    let header = match raw_to_header(raw) {
        None => {
            return Err(DecodeError::Format);
        },
        Some(h) => h,
    };
    let count = header.count;
    let stride = header.stride;
    if is_xyz {
        match crate::payload::decode_xyz(payload, count) {
            Ok(pts) => Ok((header, pts, None)),
            Err(()) => Err(DecodeError::TruncatedPayload),
        }
    } else if is_conf {
        match crate::payload::decode_xyz_conf(payload, count, stride) {
            Ok((pts, confs)) => Ok((header, pts, Some(confs))),
            Err(()) => Err(DecodeError::TruncatedPayload),
        }
    } else {
        Err(DecodeError::UnsupportedLayout(header.layout))
    }
}

/// Decodes a JSON text message of the form
/// `{"type": "lidar", "data": [points, colors]}`. Colors are always
/// present on this path, one per point.
pub fn parse_lidar_json(buf: &[u8]) -> (r: Result<
    (Vec<DecPoint>, Option<Vec<Color>>),
    DecodeError,
>)
    ensures
        match r {
            Ok((pts, cols)) => {
                &&& cols matches Some(cv)
                &&& crate::cloud::sp_lidar_doc(buf@) == Some((pts@, cols.unwrap()@))
                &&& cols.unwrap()@.len() == pts@.len()
            },
            Err(e) => e is Format && crate::cloud::sp_lidar_doc(buf@) is None,
        },
{
    match crate::cloud::parse_lidar_doc(buf) {
        Some((pts, cols)) => Ok((pts, Some(cols))),
        None => Err(DecodeError::Format),
    }
}

fn clone_opt_string(s: &Option<String>) -> (r: Option<String>)
    ensures
        match (r, s) {
            (Some(a), Some(b)) => a@ == b@,
            (None, None) => true,
            _ => false,
        },
{
    match s {
        Some(t) => Some(t.as_str().to_owned()),
        None => None,
    }
}

/// Builds the canonical frame from a decoded binary frame: confidences
/// become grayscale colors, the header's timestamp and identifier ride
/// along.
pub fn to_lidar_frame_from_parsed(header: &Header, points: Vec<Point>, confs: Option<Vec<u8>>) -> (r:
    LidarFrame)
    requires
        match confs {
            Some(cs) => cs@.len() == points@.len(),
            None => true,
        },
    ensures
        r.wf(),
        r.points@.len() == points@.len(),
        forall|k: int| 0 <= k < points@.len() ==> r.points@[k] == FramePoint::Bin(points@[k]),
        match (confs, r.colors) {
            (Some(cs), Some(rcs)) => rcs@.len() == cs@.len() && forall|k: int|
                0 <= k < cs@.len() ==> rcs@[k] == (Color {
                    r: cs@[k],
                    g: cs@[k],
                    b: cs@[k],
                }),
            (None, None) => true,
            _ => false,
        },
        r.timestamp == header.timestamp,
        match (r.frame_id, header.frame_id) {
            (Some(a), Some(b)) => a@ == b@,
            (None, None) => true,
            _ => false,
        },
{
    let n: usize = points.len();
    let mut fpts: Vec<FramePoint> = Vec::new();
    let mut k: usize = 0;
    while k < n
        invariant
            k <= n,
            n == points@.len(),
            fpts@.len() == k,
            forall|m: int| 0 <= m < k ==> fpts@[m] == FramePoint::Bin(points@[m]),
        decreases n - k,
    {
        fpts.push(FramePoint::Bin(points[k]));
        k = k + 1;
    }
    let colors = match confs {
        None => None,
        Some(cs) => {
            let mut out: Vec<Color> = Vec::new();
            let mut k2: usize = 0;
            let m: usize = cs.len();
            while k2 < m
                invariant
                    k2 <= m,
                    m == cs@.len(),
                    out@.len() == k2,
                    forall|j: int|
                        0 <= j < k2 ==> out@[j] == (Color {
                            r: cs@[j],
                            g: cs@[j],
                            b: cs@[j],
                        }),
                decreases m - k2,
            {
                let c = cs[k2];
                out.push(Color { r: c, g: c, b: c });
                k2 = k2 + 1;
            }
            Some(out)
        },
    };
    LidarFrame {
        points: fpts,
        colors,
        timestamp: header.timestamp,
        frame_id: clone_opt_string(&header.frame_id),
    }
}

/// Builds the canonical frame from the JSON decoder's output. This path
/// carries no timestamp or identifier.
pub fn to_lidar_frame_from_json(points: Vec<DecPoint>, colors: Option<Vec<Color>>) -> (r:
    LidarFrame)
    requires
        match colors {
            Some(cs) => cs@.len() == points@.len(),
            None => true,
        },
    ensures
        r.wf(),
        r.points@.len() == points@.len(),
        forall|k: int| 0 <= k < points@.len() ==> r.points@[k] == FramePoint::Json(points@[k]),
        r.colors == colors,
        r.timestamp is None,
        r.frame_id is None,
{
    let n: usize = points.len();
    let mut fpts: Vec<FramePoint> = Vec::new();
    let mut k: usize = 0;
    while k < n
        invariant
            k <= n,
            n == points@.len(),
            fpts@.len() == k,
            forall|m: int| 0 <= m < k ==> fpts@[m] == FramePoint::Json(points@[m]),
        decreases n - k,
    {
        fpts.push(FramePoint::Json(points[k]));
        k = k + 1;
    }
    LidarFrame { points: fpts, colors, timestamp: None, frame_id: None }
}

/// Decodes a binary frame buffer all the way to a canonical frame.
pub fn decode_binary(buf: &[u8]) -> (r: Result<LidarFrame, DecodeError>)
    ensures
        match r {
            Ok(fr) => fr.wf() && frame_from_binary(buf@, fr),
            Err(e) => binary_decode_error(buf@, e),
        },
{
    match parse_frame(buf) {
        Ok((h, pts, confs)) => Ok(to_lidar_frame_from_parsed(&h, pts, confs)),
        Err(e) => Err(e),
    }
}

/// Decodes a JSON text buffer all the way to a canonical frame.
pub fn decode_json(buf: &[u8]) -> (r: Result<LidarFrame, DecodeError>)
    ensures
        match r {
            Ok(fr) => fr.wf() && frame_from_json(buf@, fr),
            Err(e) => e is Format && crate::cloud::sp_lidar_doc(buf@) is None,
        },
{
    match parse_lidar_json(buf) {
        Ok((pts, cols)) => Ok(to_lidar_frame_from_json(pts, cols)),
        Err(e) => Err(e),
    }
}

/// Decodes a message of either wire format, telling them apart by the
/// first byte after any leading whitespace: a JSON object starts with an
/// opening brace, a binary frame cannot.
pub fn decode_message(buf: &[u8]) -> (r: Result<LidarFrame, DecodeError>)
    ensures
        ({
            let i = crate::json::sp_ws(buf@, 0);
            if i < buf@.len() && buf@[i] == 0x7b {
                match r {
                    Ok(fr) => fr.wf() && frame_from_json(buf@, fr),
                    Err(e) => e is Format && crate::cloud::sp_lidar_doc(buf@) is None,
                }
            } else {
                match r {
                    Ok(fr) => fr.wf() && frame_from_binary(buf@, fr),
                    Err(e) => binary_decode_error(buf@, e),
                }
            }
        }),
{
    let n: usize = buf.len();
    let i = crate::json::ws(buf, 0);
    if i < n && crate::json::at(buf, i) == 0x7b {
        decode_json(buf)
    } else {
        decode_binary(buf)
    }
}

} // verus!
