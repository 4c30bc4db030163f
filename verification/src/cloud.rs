//! Decoding of the JSON text frame:
//! `{"type": "lidar", "data": [points, colors]}` with `points` an array
//! of 3-element number arrays and `colors` an array of 3-element number
//! arrays of the same length.

use vstd::prelude::*;
use crate::json::{
    sp_ws, sp_string, sp_number, sp_skip_value, ws, parse_string, parse_number, skip_value, at,
};
use crate::color::{spec_channel, channel};
use crate::lidar::{DecPoint, Color};

verus! {

/// The 3-element number array starting at `i`: a point.
pub open spec fn sp_point(s: Seq<u8>, i: int) -> Option<(DecPoint, int)> {
    if i < 0 || i >= s.len() || s[i] != 0x5b {
        None
    } else {
        let a0 = sp_ws(s, i + 1);
        match sp_number(s, a0) {
            None => None,
            Some((n0, e0)) => {
                let c0 = sp_ws(s, e0);
                if c0 >= s.len() || s[c0] != 0x2c {
                    None
                } else {
                    let a1 = sp_ws(s, c0 + 1);
                    match sp_number(s, a1) {
                        None => None,
                        Some((n1, e1)) => {
                            let c1 = sp_ws(s, e1);
                            if c1 >= s.len() || s[c1] != 0x2c {
                                None
                            } else {
                                let a2 = sp_ws(s, c1 + 1);
                                match sp_number(s, a2) {
                                    None => None,
                                    Some((n2, e2)) => {
                                        let c2 = sp_ws(s, e2);
                                        if c2 >= s.len() || s[c2] != 0x5d {
                                            None
                                        } else {
                                            Some((DecPoint { x: n0, y: n1, z: n2 }, c2 + 1))
                                        }
                                    },
                                }
                            }
                        },
                    }
                }
            },
        }
    }
}

/// The 3-element number array starting at `i`, as a color.
pub open spec fn sp_color(s: Seq<u8>, i: int) -> Option<(Color, int)> {
    if i < 0 || i >= s.len() || s[i] != 0x5b {
        None
    } else {
        let a0 = sp_ws(s, i + 1);
        match sp_number(s, a0) {
            None => None,
            Some((n0, e0)) => {
                let c0 = sp_ws(s, e0);
                if c0 >= s.len() || s[c0] != 0x2c {
                    None
                } else {
                    let a1 = sp_ws(s, c0 + 1);
                    match sp_number(s, a1) {
                        None => None,
                        Some((n1, e1)) => {
                            let c1 = sp_ws(s, e1);
                            if c1 >= s.len() || s[c1] != 0x2c {
                                None
                            } else {
                                let a2 = sp_ws(s, c1 + 1);
                                match sp_number(s, a2) {
                                    None => None,
                                    Some((n2, e2)) => {
                                        let c2 = sp_ws(s, e2);
                                        if c2 >= s.len() || s[c2] != 0x5d {
                                            None
                                        } else {
                                            Some(
                                                (
                                                    Color {
                                                        r: spec_channel(n0),
                                                        g: spec_channel(n1),
                                                        b: spec_channel(n2),
                                                    },
                                                    c2 + 1,
                                                ),
                                            )
                                        }
                                    },
                                }
                            }
                        },
                    }
                }
            },
        }
    }
}

/// The point list elements from `i` to the closing bracket.
pub open spec fn sp_points(s: Seq<u8>, i: int, acc: Seq<DecPoint>, fuel: nat) -> Option<
    (Seq<DecPoint>, int),
>
    decreases fuel,
{
    if fuel == 0 {
        None
    } else {
        match sp_point(s, i) {
            None => None,
            Some((pt, j)) => {
                let j2 = sp_ws(s, j);
                if j2 < s.len() && s[j2] == 0x2c {
                    sp_points(s, sp_ws(s, j2 + 1), acc.push(pt), (fuel - 1) as nat)
                } else if j2 < s.len() && s[j2] == 0x5d {
                    Some((acc.push(pt), j2 + 1))
                } else {
                    None
                }
            },
        }
    }
}

/// The color list elements from `i` to the closing bracket.
pub open spec fn sp_colors(s: Seq<u8>, i: int, acc: Seq<Color>, fuel: nat) -> Option<
    (Seq<Color>, int),
>
    decreases fuel,
{
    if fuel == 0 {
        None
    } else {
        match sp_color(s, i) {
            None => None,
            Some((c, j)) => {
                let j2 = sp_ws(s, j);
                if j2 < s.len() && s[j2] == 0x2c {
                    sp_colors(s, sp_ws(s, j2 + 1), acc.push(c), (fuel - 1) as nat)
                } else if j2 < s.len() && s[j2] == 0x5d {
                    Some((acc.push(c), j2 + 1))
                } else {
                    None
                }
            },
        }
    }
}

/// The whole point array starting with a bracket at `i`.
pub open spec fn sp_points_arr(s: Seq<u8>, i: int) -> Option<(Seq<DecPoint>, int)> {
    if i < 0 || i >= s.len() || s[i] != 0x5b {
        None
    } else {
        let i1 = sp_ws(s, i + 1);
        if i1 < s.len() && s[i1] == 0x5d {
            Some((Seq::empty(), i1 + 1))
        } else {
            sp_points(s, i1, Seq::empty(), (s.len() + 1) as nat)
        }
    }
}

/// The whole color array starting with a bracket at `i`.
pub open spec fn sp_colors_arr(s: Seq<u8>, i: int) -> Option<(Seq<Color>, int)> {
    if i < 0 || i >= s.len() || s[i] != 0x5b {
        None
    } else {
        let i1 = sp_ws(s, i + 1);
        if i1 < s.len() && s[i1] == 0x5d {
            Some((Seq::empty(), i1 + 1))
        } else {
            sp_colors(s, i1, Seq::empty(), (s.len() + 1) as nat)
        }
    }
}

/// The `data` value: exactly `[points, colors]`.
pub open spec fn sp_data(s: Seq<u8>, i: int) -> Option<((Seq<DecPoint>, Seq<Color>), int)> {
    if i < 0 || i >= s.len() || s[i] != 0x5b {
        None
    } else {
        let a0 = sp_ws(s, i + 1);
        match sp_points_arr(s, a0) {
            None => None,
            Some((pts, e0)) => {
                let c0 = sp_ws(s, e0);
                if c0 >= s.len() || s[c0] != 0x2c {
                    None
                } else {
                    let a1 = sp_ws(s, c0 + 1);
                    match sp_colors_arr(s, a1) {
                        None => None,
                        Some((cols, e1)) => {
                            let c1 = sp_ws(s, e1);
                            if c1 >= s.len() || s[c1] != 0x5d {
                                None
                            } else {
                                Some(((pts, cols), c1 + 1))
                            }
                        },
                    }
                }
            },
        }
    }
}

pub ghost struct SpecLAcc {
    pub typ: Option<Seq<u8>>,
    pub data: Option<(Seq<DecPoint>, Seq<Color>)>,
}

pub open spec fn key_msg_type() -> Seq<u8> {
    seq![0x74u8, 0x79, 0x70, 0x65]
}

pub open spec fn key_data() -> Seq<u8> {
    seq![0x64u8, 0x61, 0x74, 0x61]
}

pub open spec fn lit_lidar() -> Seq<u8> {
    seq![0x6cu8, 0x69, 0x64, 0x61, 0x72]
}

/// One field of the message object. A later `type` or `data` field
/// replaces an earlier one, as a generic JSON object read would have it.
pub open spec fn sp_lvalue(s: Seq<u8>, i: int, acc: SpecLAcc, key: Seq<u8>) -> Option<
    (SpecLAcc, int),
> {
    if key == key_msg_type() {
        match sp_string(s, i) {
            Some((v, j)) => Some((SpecLAcc { typ: Some(v), ..acc }, j)),
            None => match sp_skip_value(s, i) {
                Some(j) => Some((SpecLAcc { typ: None, ..acc }, j)),
                None => None,
            },
        }
    } else if key == key_data() {
        match sp_data(s, i) {
            Some((d, j)) => Some((SpecLAcc { data: Some(d), ..acc }, j)),
            None => None,
        }
    } else {
        match sp_skip_value(s, i) {
            Some(j) => Some((acc, j)),
            None => None,
        }
    }
}

/// The message object's fields from the key at `i`.
pub open spec fn sp_lpairs(s: Seq<u8>, i: int, acc: SpecLAcc, fuel: nat) -> Option<
    (SpecLAcc, int),
>
    decreases fuel,
{
    if fuel == 0 {
        None
    } else {
        match sp_string(s, i) {
            None => None,
            Some((key, j1)) => {
                let j2 = sp_ws(s, j1);
                if j2 >= s.len() || s[j2] != 0x3a {
                    None
                } else {
                    let j3 = sp_ws(s, j2 + 1);
                    match sp_lvalue(s, j3, acc, key) {
                        None => None,
                        Some((acc2, j4)) => {
                            let j5 = sp_ws(s, j4);
                            if j5 < s.len() && s[j5] == 0x2c {
                                sp_lpairs(s, sp_ws(s, j5 + 1), acc2, (fuel - 1) as nat)
                            } else if j5 < s.len() && s[j5] == 0x7d {
                                Some((acc2, j5 + 1))
                            } else {
                                None
                            }
                        },
                    }
                }
            },
        }
    }
}

/// The whole lidar message: a JSON object whose `type` is the string
/// `lidar` and whose `data` is `[points, colors]` with as many colors as
/// points.
pub open spec fn sp_lidar_doc(s: Seq<u8>) -> Option<(Seq<DecPoint>, Seq<Color>)> {
    let i0 = sp_ws(s, 0);
    if i0 >= s.len() || s[i0] != 0x7b {
        None
    } else {
        let i1 = sp_ws(s, i0 + 1);
        let pr = if i1 < s.len() && s[i1] == 0x7d {
            Some((SpecLAcc { typ: None, data: None }, i1 + 1))
        } else {
            sp_lpairs(s, i1, SpecLAcc { typ: None, data: None }, (s.len() + 1) as nat)
        };
        match pr {
            None => None,
            Some((acc, j)) => {
                if sp_ws(s, j) != s.len() {
                    None
                } else {
                    match (acc.typ, acc.data) {
                        (Some(t), Some((pts, cols))) => if t == lit_lidar() && pts.len()
                            == cols.len() {
                            Some((pts, cols))
                        } else {
                            None
                        },
                        _ => None,
                    }
                }
            },
        }
    }
}

fn parse_point(s: &[u8], i: usize) -> (r: Option<(DecPoint, usize)>)
    requires
        i <= s@.len(),
    ensures
        match r {
            Some((p, j)) => sp_point(s@, i as int) == Some((p, j as int)) && i < j <= s@.len(),
            None => sp_point(s@, i as int) is None,
        },
{
    let n: usize = s.len();
    if i >= n || at(s, i) != 0x5b {
        return None;
    }
    let a0 = ws(s, i + 1);
    let r0 = parse_number(s, a0);
    if r0.is_none() {
        return None;
    }
    let (n0, e0) = r0.unwrap();
    let c0 = ws(s, e0);
    if c0 >= n || at(s, c0) != 0x2c {
        return None;
    }
    let a1 = ws(s, c0 + 1);
    let r1 = parse_number(s, a1);
    if r1.is_none() {
        return None;
    }
    let (n1, e1) = r1.unwrap();
    let c1 = ws(s, e1);
    if c1 >= n || at(s, c1) != 0x2c {
        return None;
    }
    let a2 = ws(s, c1 + 1);
    let r2 = parse_number(s, a2);
    if r2.is_none() {
        return None;
    }
    let (n2, e2) = r2.unwrap();
    let c2 = ws(s, e2);
    if c2 >= n || at(s, c2) != 0x5d {
        return None;
    }
    Some((DecPoint { x: n0, y: n1, z: n2 }, c2 + 1))
}

fn parse_color(s: &[u8], i: usize) -> (r: Option<(Color, usize)>)
    requires
        i <= s@.len(),
    ensures
        match r {
            Some((c, j)) => sp_color(s@, i as int) == Some((c, j as int)) && i < j <= s@.len(),
            None => sp_color(s@, i as int) is None,
        },
{
    let n: usize = s.len();
    if i >= n || at(s, i) != 0x5b {
        return None;
    }
    let a0 = ws(s, i + 1);
    let r0 = parse_number(s, a0);
    if r0.is_none() {
        return None;
    }
    let (n0, e0) = r0.unwrap();
    let c0 = ws(s, e0);
    if c0 >= n || at(s, c0) != 0x2c {
        return None;
    }
    let a1 = ws(s, c0 + 1);
    let r1 = parse_number(s, a1);
    if r1.is_none() {
        return None;
    }
    let (n1, e1) = r1.unwrap();
    let c1 = ws(s, e1);
    if c1 >= n || at(s, c1) != 0x2c {
        return None;
    }
    let a2 = ws(s, c1 + 1);
    let r2 = parse_number(s, a2);
    if r2.is_none() {
        return None;
    }
    let (n2, e2) = r2.unwrap();
    let c2 = ws(s, e2);
    if c2 >= n || at(s, c2) != 0x5d {
        return None;
    }
    Some((Color { r: channel(&n0), g: channel(&n1), b: channel(&n2) }, c2 + 1))
}

fn parse_points_arr(s: &[u8], i: usize) -> (r: Option<(Vec<DecPoint>, usize)>)
    requires
        i <= s@.len(),
    ensures
        match r {
            Some((v, j)) => sp_points_arr(s@, i as int) == Some((v@, j as int)) && i < j
                <= s@.len(),
            None => sp_points_arr(s@, i as int) is None,
        },
{
    let n: usize = s.len();
    if i >= n || at(s, i) != 0x5b {
        return None;
    }
    let i1 = ws(s, i + 1);
    if i1 < n && at(s, i1) == 0x5d {
        let out: Vec<DecPoint> = Vec::new();
        return Some((out, i1 + 1));
    }
    let mut out: Vec<DecPoint> = Vec::new();
    let mut j: usize = i1;
    let ghost fuel: nat = (n + 1) as nat;
    let ghost mut f: nat = fuel;
    loop
        invariant
            j <= n,
            n == s@.len(),
            f >= n + 1 - j,
            f <= fuel,
            fuel == (n + 1) as nat,
            i < n && s@[i as int] == 0x5b,
            i1 <= n,
            i1 == sp_ws(s@, (i + 1) as int),
            !(i1 < n && s@[i1 as int] == 0x5d),
            i < i1 <= j,
            sp_points(s@, i1 as int, Seq::empty(), fuel) == sp_points(s@, j as int, out@, f),
        decreases f,
    {
        proof {
            assert(f > 0);
        }
        let pr = parse_point(s, j);
        if pr.is_none() {
            return None;
        }
        let (pt, j1) = pr.unwrap();
        let j2 = ws(s, j1);
        if j2 < n && at(s, j2) == 0x2c {
            let j3 = ws(s, j2 + 1);
            out.push(pt);
            proof {
                f = (f - 1) as nat;
            }
            j = j3;
        } else if j2 < n && at(s, j2) == 0x5d {
            out.push(pt);
            return Some((out, j2 + 1));
        } else {
            return None;
        }
    }
}

fn parse_colors_arr(s: &[u8], i: usize) -> (r: Option<(Vec<Color>, usize)>)
    requires
        i <= s@.len(),
    ensures
        match r {
            Some((v, j)) => sp_colors_arr(s@, i as int) == Some((v@, j as int)) && i < j
                <= s@.len(),
            None => sp_colors_arr(s@, i as int) is None,
        },
{
    let n: usize = s.len();
    if i >= n || at(s, i) != 0x5b {
        return None;
    }
    let i1 = ws(s, i + 1);
    if i1 < n && at(s, i1) == 0x5d {
        let out: Vec<Color> = Vec::new();
        return Some((out, i1 + 1));
    }
    let mut out: Vec<Color> = Vec::new();
    let mut j: usize = i1;
    let ghost fuel: nat = (n + 1) as nat;
    let ghost mut f: nat = fuel;
    loop
        invariant
            j <= n,
            n == s@.len(),
            f >= n + 1 - j,
            f <= fuel,
            fuel == (n + 1) as nat,
            i < n && s@[i as int] == 0x5b,
            i1 <= n,
            i1 == sp_ws(s@, (i + 1) as int),
            !(i1 < n && s@[i1 as int] == 0x5d),
            i < i1 <= j,
            sp_colors(s@, i1 as int, Seq::empty(), fuel) == sp_colors(s@, j as int, out@, f),
        decreases f,
    {
        proof {
            assert(f > 0);
        }
        let pr = parse_color(s, j);
        if pr.is_none() {
            return None;
        }
        let (c, j1) = pr.unwrap();
        let j2 = ws(s, j1);
        if j2 < n && at(s, j2) == 0x2c {
            let j3 = ws(s, j2 + 1);
            out.push(c);
            proof {
                f = (f - 1) as nat;
            }
            j = j3;
        } else if j2 < n && at(s, j2) == 0x5d {
            out.push(c);
            return Some((out, j2 + 1));
        } else {
            return None;
        }
    }
}

fn parse_data(s: &[u8], i: usize) -> (r: Option<((Vec<DecPoint>, Vec<Color>), usize)>)
    requires
        i <= s@.len(),
    ensures
        match r {
            Some(((pts, cols), j)) => sp_data(s@, i as int) == Some(((pts@, cols@), j as int))
                && i < j <= s@.len(),
            None => sp_data(s@, i as int) is None,
        },
{
    let n: usize = s.len();
    if i >= n || at(s, i) != 0x5b {
        return None;
    }
    let a0 = ws(s, i + 1);
    let r0 = parse_points_arr(s, a0);
    if r0.is_none() {
        return None;
    }
    let (pts, e0) = r0.unwrap();
    let c0 = ws(s, e0);
    if c0 >= n || at(s, c0) != 0x2c {
        return None;
    }
    let a1 = ws(s, c0 + 1);
    let r1 = parse_colors_arr(s, a1);
    if r1.is_none() {
        return None;
    }
    let (cols, e1) = r1.unwrap();
    let c1 = ws(s, e1);
    if c1 >= n || at(s, c1) != 0x5d {
        return None;
    }
    Some(((pts, cols), c1 + 1))
}

struct LAcc {
    typ: Option<Vec<u8>>,
    data: Option<(Vec<DecPoint>, Vec<Color>)>,
}

impl View for LAcc {
    type V = SpecLAcc;

    closed spec fn view(&self) -> SpecLAcc {
        SpecLAcc {
            typ: match self.typ {
                Some(v) => Some(v@),
                None => None,
            },
            data: match self.data {
                Some((p, c)) => Some((p@, c@)),
                None => None,
            },
        }
    }
}

fn lvalue(s: &[u8], i: usize, acc: LAcc, key: &Vec<u8>) -> (r: Option<(LAcc, usize)>)
    requires
        i <= s@.len(),
    ensures
        match r {
            Some((acc2, j)) => sp_lvalue(s@, i as int, acc@, key@) == Some((acc2@, j as int)) && i
                < j <= s@.len(),
            None => sp_lvalue(s@, i as int, acc@, key@) is None,
        },
{
    if crate::header::bytes_is(key, &[0x74, 0x79, 0x70, 0x65]) {
        proof {
            assert(key@ =~= key_msg_type());
        }
        match parse_string(s, i) {
            Some((v, j)) => Some((LAcc { typ: Some(v), ..acc }, j)),
            None => match skip_value(s, i) {
                Some(j) => Some((LAcc { typ: None, ..acc }, j)),
                None => None,
            },
        }
    } else if crate::header::bytes_is(key, &[0x64, 0x61, 0x74, 0x61]) {
        proof {
            assert(key@ =~= key_data());
        }
        match parse_data(s, i) {
            Some((d, j)) => Some((LAcc { data: Some(d), ..acc }, j)),
            None => None,
        }
    } else {
        proof {
            assert(key@ != key_msg_type());
            assert(key@ != key_data());
        }
        match skip_value(s, i) {
            Some(j) => Some((acc, j)),
            None => None,
        }
    }
}

/// Decodes the whole lidar message.
#[verifier::rlimit(100)]
pub(crate) fn parse_lidar_doc(s: &[u8]) -> (r: Option<(Vec<DecPoint>, Vec<Color>)>)
    ensures
        match r {
            Some((pts, cols)) => sp_lidar_doc(s@) == Some((pts@, cols@)) && pts@.len()
                == cols@.len(),
            None => sp_lidar_doc(s@) is None,
        },
{
    let n: usize = s.len();
    let i0 = ws(s, 0);
    if i0 >= n || at(s, i0) != 0x7b {
        return None;
    }
    let i1 = ws(s, i0 + 1);
    let mut acc = LAcc { typ: None, data: None };
    let mut endj: usize = 0;
    if i1 < n && at(s, i1) == 0x7d {
        endj = i1 + 1;
    } else {
        let mut j: usize = i1;
        let ghost fuel: nat = (n + 1) as nat;
        let ghost mut f: nat = fuel;
        loop
            invariant
                j <= n,
                n == s@.len(),
                f >= n + 1 - j,
                f <= fuel,
                fuel == (n + 1) as nat,
                i0 == sp_ws(s@, 0),
                i0 < n && s@[i0 as int] == 0x7b,
                i1 == sp_ws(s@, (i0 + 1) as int),
                !(i1 < n && s@[i1 as int] == 0x7d),
                i1 <= j,
                sp_lpairs(s@, i1 as int, SpecLAcc { typ: None, data: None }, fuel) == sp_lpairs(
                    s@,
                    j as int,
                    acc@,
                    f,
                ),
            ensures
                sp_lpairs(s@, i1 as int, SpecLAcc { typ: None, data: None }, fuel) == Some(
                    (acc@, endj as int),
                ),
                endj <= n,
            decreases f,
        {
            proof {
                assert(f > 0);
            }
            let kr = parse_string(s, j);
            if kr.is_none() {
                return None;
            }
            let (key, j1) = kr.unwrap();
            let j2 = ws(s, j1);
            if j2 >= n || at(s, j2) != 0x3a {
                return None;
            }
            let j3 = ws(s, j2 + 1);
            let vr = lvalue(s, j3, acc, &key);
            if vr.is_none() {
                return None;
            }
            let (acc2, j4) = vr.unwrap();
            let j5 = ws(s, j4);
            if j5 < n && at(s, j5) == 0x2c {
                let j6 = ws(s, j5 + 1);
                acc = acc2;
                proof {
                    f = (f - 1) as nat;
                }
                j = j6;
            } else if j5 < n && at(s, j5) == 0x7d {
                acc = acc2;
                endj = j5 + 1;
                break ;
            } else {
                return None;
            }
        }
    }
    if ws(s, endj) != n {
        return None;
    }
    let LAcc { typ, data } = acc;
    match (typ, data) {
        (Some(t), Some((pts, cols))) => {
            if !crate::header::bytes_is(&t, &[0x6c, 0x69, 0x64, 0x61, 0x72]) {
                proof {
                    assert(t@ != lit_lidar());
                }
                return None;
            }
            proof {
                assert(t@ =~= lit_lidar());
            }
            if pts.len() != cols.len() {
                return None;
            }
            Some((pts, cols))
        },
        _ => None,
    }
}

} // verus!
