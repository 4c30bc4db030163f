//! Decoding of the packed binary payload into point records.

use vstd::prelude::*;
use crate::bytes::{le_u32_at, spec_le_u32};
use crate::lidar::Point;
use vstd::arithmetic::mul::lemma_mul_inequality;

verus! {

/// The point whose three binary32 values are stored little-endian at
/// offset `off` of `p`.
pub open spec fn spec_point_at(p: Seq<u8>, off: int) -> Point
    recommends
        0 <= off,
        off + 12 <= p.len(),
{
    Point {
        x: spec_le_u32(p, off),
        y: spec_le_u32(p, off + 4),
        z: spec_le_u32(p, off + 8),
    }
}

/// Bytes per record of the confidence layout: three binary32 values and
/// one confidence byte, then padding up to the declared stride.
pub open spec fn spec_rec_size(stride: int) -> int {
    if stride < 13 {
        13
    } else {
        stride
    }
}

/// The confidence layout's reads stay in bounds: every record needs its
/// first 13 bytes present; the last record's padding may be missing.
pub open spec fn conf_payload_complete(len: int, count: int, stride: int) -> bool {
    count == 0 || (count - 1) * spec_rec_size(stride) + 13 <= len
}

pub(crate) proof fn lemma_le_div_iff(a: int, b: int, c: int)
    requires
        c > 0,
        a >= 0,
        b >= 0,
    ensures
        a <= b / c <==> a * c <= b,
{
    if a <= b / c {
        lemma_mul_inequality(a, b / c, c);
        vstd::arithmetic::div_mod::lemma_remainder_lower(b, c);
    }
    if a * c <= b {
        vstd::arithmetic::div_mod::lemma_div_is_ordered(a * c, b, c);
        vstd::arithmetic::div_mod::lemma_div_multiples_vanish(a, c);
        assert(c * a == a * c) by {
            vstd::arithmetic::mul::lemma_mul_is_commutative(c, a);
        }
    }
}

/// Decodes `count` consecutive 12-byte point records.
pub(crate) fn decode_xyz(payload: &[u8], count: usize) -> (r: Result<Vec<Point>, ()>)
    ensures
        match r {
            Ok(pts) => {
                &&& count * 12 <= payload@.len()
                &&& pts@.len() == count
                &&& forall|j: int|
                    0 <= j < count ==> pts@[j] == spec_point_at(payload@, j * 12)
            },
            Err(()) => count * 12 > payload@.len(),
        },
{
    let n: usize = payload.len();
    if count > n / 12 {
        proof {
            lemma_le_div_iff(count as int, n as int, 12);
        }
        return Err(());
    }
    proof {
        lemma_le_div_iff(count as int, n as int, 12);
    }
    let mut pts: Vec<Point> = Vec::new();
    let mut k: usize = 0;
    let mut off: usize = 0;
    while k < count
        invariant
            n == payload@.len(),
            k <= count,
            off == k * 12,
            count * 12 <= payload@.len(),
            pts@.len() == k,
            forall|j: int| 0 <= j < k ==> pts@[j] == spec_point_at(payload@, j * 12),
        decreases count - k,
    {
        let x = le_u32_at(payload, off);
        let y = le_u32_at(payload, off + 4);
        let z = le_u32_at(payload, off + 8);
        pts.push(Point { x, y, z });
        off = off + 12;
        k = k + 1;
    }
    Ok(pts)
}

/// Decodes `count` records of the confidence layout: 12 point bytes, one
/// confidence byte, then `spec_rec_size(stride) - 13` padding bytes that
/// are skipped, never interpreted.
pub(crate) fn decode_xyz_conf(payload: &[u8], count: usize, stride: usize) -> (r: Result<
    (Vec<Point>, Vec<u8>),
    (),
>)
    ensures
        match r {
            Ok((pts, confs)) => {
                &&& conf_payload_complete(payload@.len() as int, count as int, stride as int)
                &&& pts@.len() == count
                &&& confs@.len() == count
                &&& forall|j: int|
                    0 <= j < count ==> pts@[j] == spec_point_at(
                        payload@,
                        j * spec_rec_size(stride as int),
                    )
                &&& forall|j: int|
                    0 <= j < count ==> confs@[j] == payload@[j * spec_rec_size(stride as int)
                        + 12]
            },
            Err(()) => !conf_payload_complete(payload@.len() as int, count as int, stride as int),
        },
{
    let n: usize = payload.len();
    let rec: usize = if stride < 13 {
        13
    } else {
        stride
    };
    if count > 0 {
        if n < 13 {
            proof {
                lemma_mul_inequality(0, (count - 1) as int, rec as int);
            }
            return Err(());
        }
        if count - 1 > (n - 13) / rec {
            proof {
                lemma_le_div_iff((count - 1) as int, (n - 13) as int, rec as int);
            }
            return Err(());
        }
        proof {
            lemma_le_div_iff((count - 1) as int, (n - 13) as int, rec as int);
        }
    }
    let mut pts: Vec<Point> = Vec::new();
    let mut confs: Vec<u8> = Vec::new();
    let mut k: usize = 0;
    while k < count
        invariant
            n == payload@.len(),
            k <= count,
            rec == spec_rec_size(stride as int),
            count > 0 ==> (count - 1) * rec + 13 <= payload@.len(),
            pts@.len() == k,
            confs@.len() == k,
            forall|j: int| 0 <= j < k ==> pts@[j] == spec_point_at(payload@, j * (rec as int)),
            forall|j: int| 0 <= j < k ==> confs@[j] == payload@[j * (rec as int) + 12],
        decreases count - k,
    {
        proof {
            lemma_mul_inequality(k as int, (count - 1) as int, rec as int);
            assert(k * rec + 13 <= n);
        }
        let off = k * rec;
        let x = le_u32_at(payload, off);
        let y = le_u32_at(payload, off + 4);
        let z = le_u32_at(payload, off + 8);
        let c = *vstd::slice::slice_index_get(payload, off + 12);
        pts.push(Point { x, y, z });
        confs.push(c);
        k = k + 1;
    }
    Ok((pts, confs))
}

} // verus!
