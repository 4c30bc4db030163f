//! Lexical layer of the wire format's JSON documents.
//!
//! Each scanning routine has a specification twin (`sp_*`) that defines
//! exactly which bytes are consumed and what value they denote; the
//! executable routines are proved equal to their twins.

use vstd::prelude::*;

verus! {

/// JSON insignificant whitespace.
pub open spec fn is_ws(b: u8) -> bool {
    b == 0x20 || b == 0x09 || b == 0x0a || b == 0x0d
}

pub open spec fn is_digit(b: u8) -> bool {
    0x30 <= b <= 0x39
}

/// The first index at or after `i` holding a non-whitespace byte, or the
/// buffer's end.
pub open spec fn sp_ws(s: Seq<u8>, i: int) -> int
    decreases s.len() - i,
{
    if i < 0 || i >= s.len() {
        s.len() as int
    } else if is_ws(s[i]) {
        sp_ws(s, i + 1)
    } else {
        i
    }
}

/// Reads the byte at `i`.
pub(crate) fn at(s: &[u8], i: usize) -> (r: u8)
    requires
        i < s@.len(),
    ensures
        r == s@[i as int],
{
    *vstd::slice::slice_index_get(s, i)
}

/// Skips whitespace starting at `i`.
pub(crate) fn ws(s: &[u8], i: usize) -> (r: usize)
    requires
        i <= s@.len(),
    ensures
        r == sp_ws(s@, i as int),
        i <= r <= s@.len(),
{
    let n: usize = s.len();
    let mut j: usize = i;
    loop
        invariant
            i <= j <= n,
            n == s@.len(),
            sp_ws(s@, i as int) == sp_ws(s@, j as int),
        ensures
            i <= j <= n,
            sp_ws(s@, i as int) == j,
        decreases n - j,
    {
        if j >= n {
            break ;
        }
        let b = at(s, j);
        if !(b == 0x20 || b == 0x09 || b == 0x0a || b == 0x0d) {
            break ;
        }
        j = j + 1;
    }
    j
}

/// The value of the hex digit `b`, or -1.
pub open spec fn sp_hex_val(b: u8) -> int {
    if 0x30 <= b <= 0x39 {
        b - 0x30
    } else if 0x41 <= b <= 0x46 {
        b - 0x41 + 10
    } else if 0x61 <= b <= 0x66 {
        b - 0x61 + 10
    } else {
        -1
    }
}

/// The value of the four hex digits at `i`, or -1 when any is missing.
pub open spec fn sp_hex4(s: Seq<u8>, i: int) -> int {
    if 0 <= i && i + 4 <= s.len() && sp_hex_val(s[i]) >= 0 && sp_hex_val(s[i + 1]) >= 0
        && sp_hex_val(s[i + 2]) >= 0 && sp_hex_val(s[i + 3]) >= 0 {
        sp_hex_val(s[i]) * 4096 + sp_hex_val(s[i + 1]) * 256 + sp_hex_val(s[i + 2]) * 16
            + sp_hex_val(s[i + 3])
    } else {
        -1
    }
}

fn hex_val(b: u8) -> (r: i32)
    ensures
        r == sp_hex_val(b),
{
    if 0x30 <= b && b <= 0x39 {
        (b - 0x30) as i32
    } else if 0x41 <= b && b <= 0x46 {
        (b - 0x41) as i32 + 10
    } else if 0x61 <= b && b <= 0x66 {
        (b - 0x61) as i32 + 10
    } else {
        -1
    }
}

/// Reads four hex digits at `i`; `-1` when malformed.
fn hex4(s: &[u8], i: usize) -> (r: i32)
    requires
        i <= s@.len(),
    ensures
        r == sp_hex4(s@, i as int),
        r < 0x10000,
{
    let n: usize = s.len();
    if i >= n || n - i < 4 {
        return -1;
    }
    let a = hex_val(at(s, i));
    let b = hex_val(at(s, i + 1));
    let c = hex_val(at(s, i + 2));
    let d = hex_val(at(s, i + 3));
    if a < 0 || b < 0 || c < 0 || d < 0 {
        return -1;
    }
    a * 4096 + b * 256 + c * 16 + d
}

/// The UTF-8 encoding of the scalar value `cp`.
pub open spec fn utf8_enc(cp: u32) -> Seq<u8>
    recommends
        cp < 0x110000,
{
    if cp < 0x80 {
        seq![cp as u8]
    } else if cp < 0x800 {
        seq![(0xC0 | (cp >> 6)) as u8, (0x80 | (cp & 0x3F)) as u8]
    } else if cp < 0x10000 {
        seq![
            (0xE0 | (cp >> 12)) as u8,
            (0x80 | ((cp >> 6) & 0x3F)) as u8,
            (0x80 | (cp & 0x3F)) as u8,
        ]
    } else {
        seq![
            (0xF0 | (cp >> 18)) as u8,
            (0x80 | ((cp >> 12) & 0x3F)) as u8,
            (0x80 | ((cp >> 6) & 0x3F)) as u8,
            (0x80 | (cp & 0x3F)) as u8,
        ]
    }
}

/// Appends the UTF-8 encoding of `cp` to `out`.
fn push_utf8(out: &mut Vec<u8>, cp: u32)
    requires
        cp < 0x110000,
    ensures
        final(out)@ == old(out)@ + utf8_enc(cp),
{
    if cp < 0x80 {
        out.push(cp as u8);
    } else if cp < 0x800 {
        out.push((0xC0 | (cp >> 6)) as u8);
        out.push((0x80 | (cp & 0x3F)) as u8);
    } else if cp < 0x10000 {
        out.push((0xE0 | (cp >> 12)) as u8);
        out.push((0x80 | ((cp >> 6) & 0x3F)) as u8);
        out.push((0x80 | (cp & 0x3F)) as u8);
    } else {
        out.push((0xF0 | (cp >> 18)) as u8);
        out.push((0x80 | ((cp >> 12) & 0x3F)) as u8);
        out.push((0x80 | ((cp >> 6) & 0x3F)) as u8);
        out.push((0x80 | (cp & 0x3F)) as u8);
    }
    proof {
        assert(out@ =~= old(out)@ + utf8_enc(cp));
    }
}

/// The unescaped content and end index of the string body starting at
/// `i` (just past the opening quote), `acc` already unescaped.
pub open spec fn sp_str_body(s: Seq<u8>, i: int, acc: Seq<u8>) -> Option<(Seq<u8>, int)>
    decreases s.len() - i,
{
    if i < 0 || i >= s.len() {
        None
    } else {
        let b = s[i];
        if b == 0x22 {
            Some((acc, i + 1))
        } else if b == 0x5c {
            if i + 1 >= s.len() {
                None
            } else {
                let e = s[i + 1];
                if e == 0x22 || e == 0x5c || e == 0x2f {
                    sp_str_body(s, i + 2, acc.push(e))
                } else if e == 0x62 {
                    sp_str_body(s, i + 2, acc.push(0x08))
                } else if e == 0x66 {
                    sp_str_body(s, i + 2, acc.push(0x0c))
                } else if e == 0x6e {
                    sp_str_body(s, i + 2, acc.push(0x0a))
                } else if e == 0x72 {
                    sp_str_body(s, i + 2, acc.push(0x0d))
                } else if e == 0x74 {
                    sp_str_body(s, i + 2, acc.push(0x09))
                } else if e == 0x75 {
                    let h = sp_hex4(s, i + 2);
                    if h < 0 {
                        None
                    } else if 0xD800 <= h < 0xDC00 {
                        if i + 8 <= s.len() && s[i + 6] == 0x5c && s[i + 7] == 0x75 {
                            let l = sp_hex4(s, i + 8);
                            if 0xDC00 <= l < 0xE000 {
                                let cp = 0x10000 + (h - 0xD800) * 0x400 + (l - 0xDC00);
                                sp_str_body(s, i + 12, acc + utf8_enc(cp as u32))
                            } else {
                                None
                            }
                        } else {
                            None
                        }
                    } else if 0xDC00 <= h < 0xE000 {
                        None
                    } else {
                        sp_str_body(s, i + 6, acc + utf8_enc(h as u32))
                    }
                } else {
                    None
                }
            }
        } else if b < 0x20 {
            None
        } else {
            sp_str_body(s, i + 1, acc.push(b))
        }
    }
}

/// The unescaped content and end index of the string literal starting
/// with a quote at `i`.
pub open spec fn sp_string(s: Seq<u8>, i: int) -> Option<(Seq<u8>, int)> {
    if 0 <= i < s.len() && s[i] == 0x22 {
        sp_str_body(s, i + 1, Seq::empty())
    } else {
        None
    }
}

/// Parses the string literal starting at `i`: returns its unescaped
/// content and the index just past the closing quote.
pub(crate) fn parse_string(s: &[u8], i: usize) -> (r: Option<(Vec<u8>, usize)>)
    requires
        i <= s@.len(),
    ensures
        match r {
            Some((v, j)) => sp_string(s@, i as int) == Some((v@, j as int)) && i < j
                <= s@.len(),
            None => sp_string(s@, i as int) is None,
        },
{
    let n: usize = s.len();
    if i >= n || at(s, i) != 0x22 {
        return None;
    }
    let mut out: Vec<u8> = Vec::new();
    let mut j: usize = i + 1;
    loop
        invariant
            i + 1 <= j <= n,
            n == s@.len(),
            s@[i as int] == 0x22,
            sp_str_body(s@, (i + 1) as int, Seq::empty()) == sp_str_body(s@, j as int, out@),
        decreases n - j,
    {
        if j >= n {
            return None;
        }
        let b = at(s, j);
        if b == 0x22 {
            let r = j + 1;
            proof {
                assert(sp_str_body(s@, j as int, out@) == Some((out@, j as int + 1)));
            }
            return Some((out, r));
        } else if b == 0x5c {
            if j + 1 >= n {
                return None;
            }
            let e = at(s, j + 1);
            if e == 0x22 || e == 0x5c || e == 0x2f {
                out.push(e);
                j = j + 2;
            } else if e == 0x62 {
                out.push(0x08);
                j = j + 2;
            } else if e == 0x66 {
                out.push(0x0c);
                j = j + 2;
            } else if e == 0x6e {
                out.push(0x0a);
                j = j + 2;
            } else if e == 0x72 {
                out.push(0x0d);
                j = j + 2;
            } else if e == 0x74 {
                out.push(0x09);
                j = j + 2;
            } else if e == 0x75 {
                let h = hex4(s, j + 2);
                if h < 0 {
                    return None;
                } else if 0xD800 <= h && h < 0xDC00 {
                    if n - j >= 8 && at(s, j + 6) == 0x5c && at(s, j + 7) == 0x75 {
                        let l = hex4(s, j + 8);
                        if 0xDC00 <= l && l < 0xE000 {
                            let cp: u32 = 0x10000 + (h as u32 - 0xD800) * 0x400 + (l as u32
                                - 0xDC00);
                            push_utf8(&mut out, cp);
                            j = j + 12;
                        } else {
                            return None;
                        }
                    } else {
                        return None;
                    }
                } else if 0xDC00 <= h && h < 0xE000 {
                    return None;
                } else {
                    push_utf8(&mut out, h as u32);
                    j = j + 6;
                }
            } else {
                return None;
            }
        } else if b < 0x20 {
            return None;
        } else {
            out.push(b);
            j = j + 1;
        }
    }
}


/// A JSON number, reduced to what the decoders consume: sign, a
/// significand of at most 19 accumulated digits, a base-10 exponent, and
/// its exact unsigned integer value when it is one.
#[derive(Clone, Copy, PartialEq, Eq, Structural, Debug)]
pub struct JNum {
    pub neg: bool,
    pub mant: u64,
    pub exp10: i64,
    pub uval_ok: bool,
    pub uval: u64,
}

/// Folds a run of digits into `mant`, dropping digits once another would
/// overflow. `dropped` counts dropped digits and `kept` accumulated ones,
/// each saturating.
pub open spec fn sp_digits(s: Seq<u8>, i: int, mant: u64, dropped: u32, kept: u32) -> (
    u64,
    u32,
    u32,
    int,
)
    decreases s.len() - i,
{
    if i < 0 || i >= s.len() || !is_digit(s[i]) {
        (mant, dropped, kept, i)
    } else {
        let d = (s[i] - 0x30) as u64;
        if mant <= (0xFFFFFFFFFFFFFFFFu64 - d) / 10 {
            sp_digits(
                s,
                i + 1,
                (mant * 10 + d) as u64,
                dropped,
                if kept < 2000000000 {
                    (kept + 1) as u32
                } else {
                    kept
                },
            )
        } else {
            sp_digits(
                s,
                i + 1,
                mant,
                if dropped < 1000000000 {
                    (dropped + 1) as u32
                } else {
                    dropped
                },
                kept,
            )
        }
    }
}

/// Folds a run of exponent digits, saturating near two billion.
pub open spec fn sp_expdigits(s: Seq<u8>, i: int, acc: i64) -> (i64, int)
    decreases s.len() - i,
{
    if i < 0 || i >= s.len() || !is_digit(s[i]) {
        (acc, i)
    } else {
        let d = (s[i] - 0x30) as i64;
        let acc2 = if acc < 2000000000 {
            (acc * 10 + d) as i64
        } else {
            acc
        };
        sp_expdigits(s, i + 1, acc2)
    }
}

/// The number starting at `i`, in strict JSON number syntax, and its end
/// index.
pub open spec fn sp_number(s: Seq<u8>, i: int) -> Option<(JNum, int)> {
    if i < 0 || i >= s.len() {
        None
    } else {
        let neg = s[i] == 0x2d;
        let i0 = if neg {
            i + 1
        } else {
            i
        };
        if i0 >= s.len() || !is_digit(s[i0]) {
            None
        } else {
            let first_zero = s[i0] == 0x30;
            let (m1, d1, k1, i1) = if first_zero {
                (0u64, 0u32, 1u32, i0 + 1)
            } else {
                sp_digits(s, i0, 0u64, 0u32, 0u32)
            };
            if first_zero && i1 < s.len() && is_digit(s[i1]) {
                None
            } else {
                let has_frac = i1 < s.len() && s[i1] == 0x2e;
                if has_frac && (i1 + 1 >= s.len() || !is_digit(s[i1 + 1])) {
                    None
                } else {
                    let (m2, d2, k2, i2) = if has_frac {
                        sp_digits(s, i1 + 1, m1, 0u32, 0u32)
                    } else {
                        (m1, 0u32, 0u32, i1)
                    };
                    let has_exp = i2 < s.len() && (s[i2] == 0x65 || s[i2] == 0x45);
                    if has_exp {
                        let eneg = i2 + 1 < s.len() && s[i2 + 1] == 0x2d;
                        let epos = i2 + 1 < s.len() && s[i2 + 1] == 0x2b;
                        let i3 = if eneg || epos {
                            i2 + 2
                        } else {
                            i2 + 1
                        };
                        if i3 >= s.len() || !is_digit(s[i3]) {
                            None
                        } else {
                            let (ev, i4) = sp_expdigits(s, i3, 0);
                            let ex = d1 as int - k2 as int + (if eneg {
                                -(ev as int)
                            } else {
                                ev as int
                            });
                            Some(
                                (
                                    JNum {
                                        neg,
                                        mant: m2,
                                        exp10: ex as i64,
                                        uval_ok: false,
                                        uval: 0,
                                    },
                                    i4,
                                ),
                            )
                        }
                    } else {
                        let ex = d1 as int - k2 as int;
                        let ok = !neg && !has_frac && d1 == 0;
                        Some(
                            (
                                JNum {
                                    neg,
                                    mant: m2,
                                    exp10: ex as i64,
                                    uval_ok: ok,
                                    uval: if ok {
                                        m2
                                    } else {
                                        0
                                    },
                                },
                                i2,
                            ),
                        )
                    }
                }
            }
        }
    }
}

fn digits(s: &[u8], i: usize, mant0: u64, dropped0: u32, kept0: u32) -> (r: (u64, u32, u32, usize))
    requires
        i <= s@.len(),
        dropped0 <= 1000000000,
        kept0 <= 2000000000,
    ensures
        ({
            let (m, d, k, j) = r;
            &&& i <= j <= s@.len()
            &&& d <= 1000000000
            &&& k <= 2000000000
            &&& i < s@.len() && is_digit(s@[i as int]) ==> j > i
            &&& sp_digits(s@, i as int, mant0, dropped0, kept0) == (m, d, k, j as int)
        }),
{
    let n: usize = s.len();
    let mut mant = mant0;
    let mut dropped = dropped0;
    let mut kept = kept0;
    let mut j: usize = i;
    loop
        invariant
            i <= j <= n,
            n == s@.len(),
            dropped <= 1000000000,
            kept <= 2000000000,
            sp_digits(s@, i as int, mant0, dropped0, kept0) == sp_digits(
                s@,
                j as int,
                mant,
                dropped,
                kept,
            ),
        ensures
            i <= j <= n,
            dropped <= 1000000000,
            kept <= 2000000000,
            j == i ==> i >= n || !is_digit(s@[i as int]),
            sp_digits(s@, i as int, mant0, dropped0, kept0) == (mant, dropped, kept, j as int),
        decreases n - j,
    {
        if j >= n {
            break ;
        }
        let b = at(s, j);
        if !(0x30 <= b && b <= 0x39) {
            break ;
        }
        let d = (b - 0x30) as u64;
        if mant <= (0xFFFFFFFFFFFFFFFFu64 - d) / 10 {
            proof {
                crate::payload::lemma_le_div_iff(
                    mant as int,
                    (0xFFFFFFFFFFFFFFFFu64 - d) as int,
                    10,
                );
            }
            mant = mant * 10 + d;
            if kept < 2000000000 {
                kept = kept + 1;
            }
        } else {
            if dropped < 1000000000 {
                dropped = dropped + 1;
            }
        }
        j = j + 1;
    }
    (mant, dropped, kept, j)
}

fn expdigits(s: &[u8], i: usize, acc0: i64) -> (r: (i64, usize))
    requires
        i <= s@.len(),
        0 <= acc0 <= 20000000009i64,
    ensures
        ({
            let (ev, j) = r;
            &&& i <= j <= s@.len()
            &&& 0 <= ev <= 20000000009i64
            &&& sp_expdigits(s@, i as int, acc0) == (ev, j as int)
        }),
{
    let n: usize = s.len();
    let mut acc = acc0;
    let mut j: usize = i;
    loop
        invariant
            i <= j <= n,
            n == s@.len(),
            0 <= acc <= 20000000009i64,
            sp_expdigits(s@, i as int, acc0) == sp_expdigits(s@, j as int, acc),
        ensures
            i <= j <= n,
            0 <= acc <= 20000000009i64,
            sp_expdigits(s@, i as int, acc0) == (acc, j as int),
        decreases n - j,
    {
        if j >= n {
            break ;
        }
        let b = at(s, j);
        if !(0x30 <= b && b <= 0x39) {
            break ;
        }
        let d = (b - 0x30) as i64;
        if acc < 2000000000 {
            acc = acc * 10 + d;
        }
        j = j + 1;
    }
    (acc, j)
}

/// Parses the number starting at `i`: returns it and the index just past
/// its last byte.
pub(crate) fn parse_number(s: &[u8], i: usize) -> (r: Option<(JNum, usize)>)
    requires
        i <= s@.len(),
    ensures
        match r {
            Some((v, j)) => sp_number(s@, i as int) == Some((v, j as int)) && i < j <= s@.len(),
            None => sp_number(s@, i as int) is None,
        },
{
    let n: usize = s.len();
    if i >= n {
        return None;
    }
    let neg = at(s, i) == 0x2d;
    let i0 = if neg {
        i + 1
    } else {
        i
    };
    if i0 >= n {
        return None;
    }
    let b0 = at(s, i0);
    if !(0x30 <= b0 && b0 <= 0x39) {
        return None;
    }
    let first_zero = b0 == 0x30;
    let (m1, d1, _k1, i1) = if first_zero {
        (0u64, 0u32, 1u32, i0 + 1)
    } else {
        digits(s, i0, 0, 0, 0)
    };
    if first_zero && i1 < n {
        let b1 = at(s, i1);
        if 0x30 <= b1 && b1 <= 0x39 {
            return None;
        }
    }
    let has_frac = i1 < n && at(s, i1) == 0x2e;
    if has_frac {
        if i1 + 1 >= n {
            return None;
        }
        let bf = at(s, i1 + 1);
        if !(0x30 <= bf && bf <= 0x39) {
            return None;
        }
    }
    let (m2, _d2, k2, i2) = if has_frac {
        digits(s, i1 + 1, m1, 0, 0)
    } else {
        (m1, 0u32, 0u32, i1)
    };
    let has_exp = i2 < n && (at(s, i2) == 0x65 || at(s, i2) == 0x45);
    if has_exp {
        let eneg = i2 + 1 < n && at(s, i2 + 1) == 0x2d;
        let epos = i2 + 1 < n && at(s, i2 + 1) == 0x2b;
        let i3 = if eneg || epos {
            i2 + 2
        } else {
            i2 + 1
        };
        if i3 >= n {
            return None;
        }
        let be = at(s, i3);
        if !(0x30 <= be && be <= 0x39) {
            return None;
        }
        let (ev, i4) = expdigits(s, i3, 0);
        let ex: i64 = d1 as i64 - k2 as i64 + (if eneg {
            -ev
        } else {
            ev
        });
        Some((JNum { neg, mant: m2, exp10: ex, uval_ok: false, uval: 0 }, i4))
    } else {
        let ex: i64 = d1 as i64 - k2 as i64;
        let ok = !neg && !has_frac && d1 == 0;
        Some(
            (
                JNum {
                    neg,
                    mant: m2,
                    exp10: ex,
                    uval_ok: ok,
                    uval: if ok {
                        m2
                    } else {
                        0
                    },
                },
                i2,
            ),
        )
    }
}

/// Whether the bytes at `i` read `true`.
pub open spec fn sp_true(s: Seq<u8>, i: int) -> bool {
    0 <= i && i + 4 <= s.len() && s[i] == 0x74 && s[i + 1] == 0x72 && s[i + 2] == 0x75 && s[i + 3]
        == 0x65
}

/// Whether the bytes at `i` read `false`.
pub open spec fn sp_false(s: Seq<u8>, i: int) -> bool {
    0 <= i && i + 5 <= s.len() && s[i] == 0x66 && s[i + 1] == 0x61 && s[i + 2] == 0x6c && s[i + 3]
        == 0x73 && s[i + 4] == 0x65
}

/// Whether the bytes at `i` read `null`.
pub open spec fn sp_null(s: Seq<u8>, i: int) -> bool {
    0 <= i && i + 4 <= s.len() && s[i] == 0x6e && s[i + 1] == 0x75 && s[i + 2] == 0x6c && s[i + 3]
        == 0x6c
}

pub(crate) fn lit_true(s: &[u8], i: usize) -> (r: bool)
    requires
        i <= s@.len(),
    ensures
        r == sp_true(s@, i as int),
{
    let n: usize = s.len();
    n - i >= 4 && at(s, i) == 0x74 && at(s, i + 1) == 0x72 && at(s, i + 2) == 0x75 && at(s, i + 3)
        == 0x65
}

pub(crate) fn lit_false(s: &[u8], i: usize) -> (r: bool)
    requires
        i <= s@.len(),
    ensures
        r == sp_false(s@, i as int),
{
    let n: usize = s.len();
    n - i >= 5 && at(s, i) == 0x66 && at(s, i + 1) == 0x61 && at(s, i + 2) == 0x6c && at(s, i + 3)
        == 0x73 && at(s, i + 4) == 0x65
}

pub(crate) fn lit_null(s: &[u8], i: usize) -> (r: bool)
    requires
        i <= s@.len(),
    ensures
        r == sp_null(s@, i as int),
{
    let n: usize = s.len();
    n - i >= 4 && at(s, i) == 0x6e && at(s, i + 1) == 0x75 && at(s, i + 2) == 0x6c && at(s, i + 3)
        == 0x6c
}

/// The end of a primitive token: the next whitespace, comma or closing
/// bracket, or the buffer's end.
pub open spec fn sp_prim_end(s: Seq<u8>, i: int) -> int
    decreases s.len() - i,
{
    if i < 0 || i >= s.len() {
        s.len() as int
    } else if is_ws(s[i]) || s[i] == 0x2c || s[i] == 0x5d || s[i] == 0x7d {
        i
    } else {
        sp_prim_end(s, i + 1)
    }
}

/// Scans past the rest of a value whose leading byte was consumed:
/// `depth` open brackets are still unclosed, `instr`/`esc` describe a
/// string in progress. Brackets are only counted, not matched by kind:
/// this scanner delimits ignored values, it does not validate them.
pub open spec fn sp_scan(s: Seq<u8>, i: int, depth: int, instr: bool, esc: bool) -> Option<int>
    decreases s.len() - i,
{
    if i < 0 || i >= s.len() {
        None
    } else {
        let b = s[i];
        if instr {
            if esc {
                sp_scan(s, i + 1, depth, true, false)
            } else if b == 0x5c {
                sp_scan(s, i + 1, depth, true, true)
            } else if b == 0x22 {
                if depth == 0 {
                    Some(i + 1)
                } else {
                    sp_scan(s, i + 1, depth, false, false)
                }
            } else {
                sp_scan(s, i + 1, depth, true, false)
            }
        } else {
            if b == 0x7b || b == 0x5b {
                sp_scan(s, i + 1, depth + 1, false, false)
            } else if b == 0x7d || b == 0x5d {
                if depth <= 1 {
                    Some(i + 1)
                } else {
                    sp_scan(s, i + 1, depth - 1, false, false)
                }
            } else if b == 0x22 {
                sp_scan(s, i + 1, depth, true, false)
            } else {
                sp_scan(s, i + 1, depth, false, false)
            }
        }
    }
}

/// The index just past the ignored value starting at `i`, when one
/// starts there.
pub open spec fn sp_skip_value(s: Seq<u8>, i: int) -> Option<int> {
    if i < 0 || i >= s.len() {
        None
    } else {
        let b = s[i];
        if b == 0x22 {
            sp_scan(s, i + 1, 0, true, false)
        } else if b == 0x7b || b == 0x5b {
            sp_scan(s, i + 1, 1, false, false)
        } else if is_digit(b) || b == 0x2d || b == 0x74 || b == 0x66 || b == 0x6e {
            Some(sp_prim_end(s, i + 1))
        } else {
            None
        }
    }
}

/// Scans past the value starting at `i`, without interpreting it.
#[verifier::rlimit(100)]
pub(crate) fn skip_value(s: &[u8], i: usize) -> (r: Option<usize>)
    requires
        i <= s@.len(),
    ensures
        match r {
            Some(j) => sp_skip_value(s@, i as int) == Some(j as int) && i < j <= s@.len(),
            None => sp_skip_value(s@, i as int) is None,
        },
{
    let n: usize = s.len();
    if i >= n {
        return None;
    }
    let b = at(s, i);
    let mut instr: bool = false;
    let mut depth: usize = 0;
    if b == 0x22 {
        instr = true;
        depth = 0;
    } else if b == 0x7b || b == 0x5b {
        instr = false;
        depth = 1;
    } else if (0x30 <= b && b <= 0x39) || b == 0x2d || b == 0x74 || b == 0x66 || b == 0x6e {
        let mut j: usize = i + 1;
        loop
            invariant
                i + 1 <= j <= n,
                n == s@.len(),
                sp_prim_end(s@, (i + 1) as int) == sp_prim_end(s@, j as int),
            ensures
                i + 1 <= j <= n,
                sp_prim_end(s@, (i + 1) as int) == j,
            decreases n - j,
        {
            if j >= n {
                break ;
            }
            let c = at(s, j);
            if c == 0x20 || c == 0x09 || c == 0x0a || c == 0x0d || c == 0x2c || c == 0x5d || c
                == 0x7d {
                break ;
            }
            j = j + 1;
        }
        return Some(j);
    } else {
        return None;
    }
    let mut esc: bool = false;
    let mut j: usize = i + 1;
    loop
        invariant
            i + 1 <= j <= n,
            n == s@.len(),
            depth <= j,
            !instr ==> !esc,
            i < n && s@[i as int] == b,
            b == 0x22 || b == 0x7b || b == 0x5b,
            sp_skip_value(s@, i as int) == sp_scan(s@, j as int, depth as int, instr, esc),
        decreases n - j,
    {
        if j >= n {
            return None;
        }
        let c = at(s, j);
        let ghost d0 = depth as int;
        if instr {
            if esc {
                proof {
                    assert(sp_scan(s@, j as int, d0, true, true) == sp_scan(
                        s@,
                        j as int + 1,
                        d0,
                        true,
                        false,
                    ));
                }
                esc = false;
            } else if c == 0x5c {
                proof {
                    assert(sp_scan(s@, j as int, d0, true, false) == sp_scan(
                        s@,
                        j as int + 1,
                        d0,
                        true,
                        true,
                    ));
                }
                esc = true;
            } else if c == 0x22 {
                if depth == 0 {
                    proof {
                        assert(sp_scan(s@, j as int, d0, true, false) == Some(j as int + 1));
                    }
                    return Some(j + 1);
                } else {
                    proof {
                        assert(sp_scan(s@, j as int, d0, true, false) == sp_scan(
                            s@,
                            j as int + 1,
                            d0,
                            false,
                            false,
                        ));
                    }
                    instr = false;
                }
            } else {
                proof {
                    assert(sp_scan(s@, j as int, d0, true, false) == sp_scan(
                        s@,
                        j as int + 1,
                        d0,
                        true,
                        false,
                    ));
                }
            }
        } else {
            if c == 0x7b || c == 0x5b {
                proof {
                    assert(depth < n);
                    assert(sp_scan(s@, j as int, d0, false, false) == sp_scan(
                        s@,
                        j as int + 1,
                        d0 + 1,
                        false,
                        false,
                    ));
                }
                depth = depth + 1;
            } else if c == 0x7d || c == 0x5d {
                if depth <= 1 {
                    proof {
                        assert(sp_scan(s@, j as int, d0, false, false) == Some(j as int + 1));
                    }
                    return Some(j + 1);
                } else {
                    proof {
                        assert(sp_scan(s@, j as int, d0, false, false) == sp_scan(
                            s@,
                            j as int + 1,
                            d0 - 1,
                            false,
                            false,
                        ));
                    }
                    depth = depth - 1;
                }
            } else if c == 0x22 {
                proof {
                    assert(sp_scan(s@, j as int, d0, false, false) == sp_scan(
                        s@,
                        j as int + 1,
                        d0,
                        true,
                        false,
                    ));
                }
                instr = true;
            } else {
                proof {
                    assert(sp_scan(s@, j as int, d0, false, false) == sp_scan(
                        s@,
                        j as int + 1,
                        d0,
                        false,
                        false,
                    ));
                }
            }
        }
        j = j + 1;
    }
}

} // verus!
