//! Encoding and decoding of the persisted geometry record.
//!
//! The record travels as one small JSON object,
//! `{"x":<int>,"y":<int>,"width":<uint|null>,"height":<uint|null>}`.
//! The encoder always writes that canonical shape.  The decoder accepts the
//! object with its members in any order, with optional whitespace between
//! tokens, with `width` and `height` either numeric, `null` or absent, and
//! rejects everything else: a rejected file restores nothing, it never
//! crashes startup.  Decoding what was encoded returns the record exactly
//! (`lemma_encode_then_parse`).

use vstd::prelude::*;

use crate::geometry::WindowGeometry;

verus! {

// ---------------------------------------------------------------------------
// Byte classes and decimal digits
// ---------------------------------------------------------------------------

/// JSON insignificant whitespace: space, tab, line feed, carriage return.
pub open spec fn is_ws(b: u8) -> bool {
    b == 0x20 || b == 0x09 || b == 0x0a || b == 0x0d
}

/// An ASCII decimal digit.
pub open spec fn is_digit(b: u8) -> bool {
    0x30 <= b && b <= 0x39
}

/// The value of an ASCII decimal digit.
pub open spec fn digit_val(b: u8) -> nat {
    (b - 0x30) as nat
}

/// The decimal digits of `n`, most significant first, no leading zeros.
pub open spec fn dec_digits(n: nat) -> Seq<u8>
    decreases n,
{
    if n < 10 {
        seq![(0x30 + n) as u8]
    } else {
        dec_digits(n / 10).push((0x30 + n % 10) as u8)
    }
}

/// The number denoted by a digit string, most significant first.
pub open spec fn dec_val(s: Seq<u8>) -> nat
    decreases s.len(),
{
    if s.len() == 0 {
        0
    } else {
        dec_val(s.drop_last()) * 10 + digit_val(s.last())
    }
}

/// The decimal rendering of `n` is nonempty, consists of digits, starts with
/// a zero only for the number zero itself, and denotes `n`.
pub proof fn lemma_dec_digits(n: nat)
    ensures
        dec_digits(n).len() >= 1,
        forall|t: int| 0 <= t < dec_digits(n).len() ==> is_digit(#[trigger] dec_digits(n)[t]),
        dec_val(dec_digits(n)) == n,
        n == 0 ==> dec_digits(n) == seq![0x30u8],
        n != 0 ==> dec_digits(n)[0] != 0x30,
    decreases n,
{
    if n < 10 {
        let d = (0x30 + n) as u8;
        assert(dec_digits(n) == seq![d]);
        assert(dec_digits(n).drop_last() =~= Seq::<u8>::empty());
        assert(dec_digits(n).last() == d);
        assert(dec_val(Seq::<u8>::empty()) == 0);
        assert(digit_val(d) == n);
        assert(dec_val(dec_digits(n)) == 0 * 10 + digit_val(d));
    } else {
        lemma_dec_digits(n / 10);
        let d = (0x30 + n % 10) as u8;
        let head = dec_digits(n / 10);
        let all = dec_digits(n);
        assert(all == head.push(d));
        assert(all.drop_last() =~= head);
        assert(all.last() == d);
        assert(digit_val(d) == n % 10);
        assert(dec_val(all) == dec_val(head) * 10 + digit_val(d));
        assert(dec_val(all) == (n / 10) * 10 + n % 10);
        assert((n / 10) * 10 + n % 10 == n);
        assert(forall|t: int| 0 <= t < all.len() ==> is_digit(#[trigger] all[t])) by {
            assert(forall|t: int| 0 <= t < head.len() ==> is_digit(#[trigger] head[t]));
            assert(all[all.len() - 1] == d);
        }
    }
}

// ---------------------------------------------------------------------------
// The decoder's specification
// ---------------------------------------------------------------------------

/// Position of the first non-whitespace byte at or after `i`.
pub open spec fn skip_ws(s: Seq<u8>, i: int) -> int
    decreases s.len() - i when 0 <= i <= s.len()
{
    if i < s.len() && is_ws(s[i]) {
        skip_ws(s, i + 1)
    } else {
        i
    }
}

/// Position right after the run of digits starting at `i`.
pub open spec fn digits_end(s: Seq<u8>, i: int) -> int
    decreases s.len() - i when 0 <= i <= s.len()
{
    if i < s.len() && is_digit(s[i]) {
        digits_end(s, i + 1)
    } else {
        i
    }
}

/// The byte at `i` exists and is `b`.
pub open spec fn at(s: Seq<u8>, i: int, b: u8) -> bool {
    0 <= i < s.len() && s[i] == b
}

/// An unsigned JSON number at `i`: a nonempty digit run without a leading
/// zero.  Yields the value and the position after the run.
pub open spec fn spec_parse_uint(s: Seq<u8>, i: int) -> Option<(nat, int)> {
    let e = digits_end(s, i);
    if e == i {
        None
    } else if s[i] == 0x30 && e > i + 1 {
        None
    } else {
        Some((dec_val(s.subrange(i, e)), e))
    }
}

/// A JSON integer at `i`: an optional minus sign and an unsigned number.
pub open spec fn spec_parse_int(s: Seq<u8>, i: int) -> Option<(int, int)> {
    if at(s, i, 0x2d) {
        match spec_parse_uint(s, i + 1) {
            Some((v, e)) => Some((-(v as int), e)),
            None => None,
        }
    } else {
        match spec_parse_uint(s, i) {
            Some((v, e)) => Some((v as int, e)),
            None => None,
        }
    }
}

/// The member key `"x"`, quotes included.
pub open spec fn key_x() -> Seq<u8> {
    seq![0x22u8, 0x78u8, 0x22u8]
}

/// The member key `"y"`, quotes included.
pub open spec fn key_y() -> Seq<u8> {
    seq![0x22u8, 0x79u8, 0x22u8]
}

/// The member key `"width"`, quotes included.
pub open spec fn key_width() -> Seq<u8> {
    seq![0x22u8, 0x77u8, 0x69u8, 0x64u8, 0x74u8, 0x68u8, 0x22u8]
}

/// The member key `"height"`, quotes included.
pub open spec fn key_height() -> Seq<u8> {
    seq![0x22u8, 0x68u8, 0x65u8, 0x69u8, 0x67u8, 0x68u8, 0x74u8, 0x22u8]
}

/// The literal `null`.
pub open spec fn lit_null() -> Seq<u8> {
    seq![0x6eu8, 0x75u8, 0x6cu8, 0x6cu8]
}

/// A present optional member: `Some(None)` was written as `null`,
/// `Some(Some(v))` as a number; an absent member reads as no size.
pub open spec fn flatten_opt(o: Option<Option<u32>>) -> Option<u32> {
    match o {
        Some(Some(v)) => Some(v),
        _ => None,
    }
}

/// The record assembled at the closing brace: `x` and `y` must have been
/// seen; `width` and `height` may be absent or `null`.
pub open spec fn spec_finish(
    px: Option<i32>,
    py: Option<i32>,
    pw: Option<Option<u32>>,
    ph: Option<Option<u32>>,
) -> Option<WindowGeometry> {
    match (px, py) {
        (Some(x), Some(y)) => Some(
            WindowGeometry { x, y, width: flatten_opt(pw), height: flatten_opt(ph) },
        ),
        _ => None,
    }
}

/// One object member at `i` (which points at the opening quote of a key).
/// Each key may occur once; unknown keys are rejected.  `fuel` bounds the
/// member count; five is enough for every record with distinct known keys.
pub open spec fn spec_members(
    s: Seq<u8>,
    i: int,
    px: Option<i32>,
    py: Option<i32>,
    pw: Option<Option<u32>>,
    ph: Option<Option<u32>>,
    fuel: nat,
) -> Option<WindowGeometry>
    decreases fuel, 1int,
{
    if fuel == 0 {
        None
    } else if 0 <= i && i + 3 <= s.len() && s.subrange(i, i + 3) == key_x() {
        if px is Some {
            None
        } else {
            let j = skip_ws(s, i + 3);
            if at(s, j, 0x3a) {
                match spec_parse_int(s, skip_ws(s, j + 1)) {
                    Some((v, e)) => if -0x8000_0000 <= v <= 0x7fff_ffff {
                        spec_tail(s, e, Some(v as i32), py, pw, ph, fuel)
                    } else {
                        None
                    },
                    None => None,
                }
            } else {
                None
            }
        }
    } else if 0 <= i && i + 3 <= s.len() && s.subrange(i, i + 3) == key_y() {
        if py is Some {
            None
        } else {
            let j = skip_ws(s, i + 3);
            if at(s, j, 0x3a) {
                match spec_parse_int(s, skip_ws(s, j + 1)) {
                    Some((v, e)) => if -0x8000_0000 <= v <= 0x7fff_ffff {
                        spec_tail(s, e, px, Some(v as i32), pw, ph, fuel)
                    } else {
                        None
                    },
                    None => None,
                }
            } else {
                None
            }
        }
    } else if 0 <= i && i + 7 <= s.len() && s.subrange(i, i + 7) == key_width() {
        if pw is Some {
            None
        } else {
            let j = skip_ws(s, i + 7);
            if at(s, j, 0x3a) {
                let k = skip_ws(s, j + 1);
                if k + 4 <= s.len() && s.subrange(k, k + 4) == lit_null() {
                    spec_tail(s, k + 4, px, py, Some(None), ph, fuel)
                } else {
                    match spec_parse_uint(s, k) {
                        Some((v, e)) => if v <= 0xffff_ffff {
                            spec_tail(s, e, px, py, Some(Some(v as u32)), ph, fuel)
                        } else {
                            None
                        },
                        None => None,
                    }
                }
            } else {
                None
            }
        }
    } else if 0 <= i && i + 8 <= s.len() && s.subrange(i, i + 8) == key_height() {
        if ph is Some {
            None
        } else {
            let j = skip_ws(s, i + 8);
            if at(s, j, 0x3a) {
                let k = skip_ws(s, j + 1);
                if k + 4 <= s.len() && s.subrange(k, k + 4) == lit_null() {
                    spec_tail(s, k + 4, px, py, pw, Some(None), fuel)
                } else {
                    match spec_parse_uint(s, k) {
                        Some((v, e)) => if v <= 0xffff_ffff {
                            spec_tail(s, e, px, py, pw, Some(Some(v as u32)), fuel)
                        } else {
                            None
                        },
                        None => None,
                    }
                }
            } else {
                None
            }
        }
    } else {
        None
    }
}

/// After a member's value: a comma continues with the next member, a closing
/// brace (followed only by whitespace) finishes the record.
pub open spec fn spec_tail(
    s: Seq<u8>,
    i: int,
    px: Option<i32>,
    py: Option<i32>,
    pw: Option<Option<u32>>,
    ph: Option<Option<u32>>,
    fuel: nat,
) -> Option<WindowGeometry>
    decreases fuel, 0int,
{
    if fuel == 0 || !(0 <= i <= s.len()) {
        None
    } else {
        let m = skip_ws(s, i);
        if at(s, m, 0x2c) {
            spec_members(s, skip_ws(s, m + 1), px, py, pw, ph, (fuel - 1) as nat)
        } else if at(s, m, 0x7d) {
            if skip_ws(s, m + 1) == s.len() {
                spec_finish(px, py, pw, ph)
            } else {
                None
            }
        } else {
            None
        }
    }
}

/// The record denoted by a byte string, if it is a well-formed geometry
/// object; `None` for everything malformed, empty or truncated.
pub open spec fn spec_parse_geometry(s: Seq<u8>) -> Option<WindowGeometry> {
    let i = skip_ws(s, 0);
    if at(s, i, 0x7b) {
        spec_members(s, skip_ws(s, i + 1), None, None, None, None, 5)
    } else {
        None
    }
}

// ---------------------------------------------------------------------------
// The encoder's specification
// ---------------------------------------------------------------------------

/// The decimal rendering of a signed number.
pub open spec fn dec_int_bytes(v: int) -> Seq<u8> {
    if v < 0 {
        seq![0x2du8] + dec_digits((-v) as nat)
    } else {
        dec_digits(v as nat)
    }
}

/// The rendering of an optional dimension: a number or `null`.
pub open spec fn opt_u32_bytes(o: Option<u32>) -> Seq<u8> {
    match o {
        Some(v) => dec_digits(v as nat),
        None => lit_null(),
    }
}

/// The object head `{"x":`.
pub open spec fn lit_obj_x() -> Seq<u8> {
    seq![0x7bu8, 0x22u8, 0x78u8, 0x22u8, 0x3au8]
}

/// The separator `,"y":`.
pub open spec fn lit_sep_y() -> Seq<u8> {
    seq![0x2cu8, 0x22u8, 0x79u8, 0x22u8, 0x3au8]
}

/// The separator `,"width":`.
pub open spec fn lit_sep_width() -> Seq<u8> {
    seq![0x2cu8, 0x22u8, 0x77u8, 0x69u8, 0x64u8, 0x74u8, 0x68u8, 0x22u8, 0x3au8]
}

/// The separator `,"height":`.
pub open spec fn lit_sep_height() -> Seq<u8> {
    seq![0x2cu8, 0x22u8, 0x68u8, 0x65u8, 0x69u8, 0x67u8, 0x68u8, 0x74u8, 0x22u8, 0x3au8]
}

/// The canonical rendering of a geometry record, the exact bytes the store
/// writes: members in declaration order, no whitespace, absent dimensions
/// as `null`.
pub open spec fn spec_encode_geometry(g: WindowGeometry) -> Seq<u8> {
    lit_obj_x() + dec_int_bytes(g.x as int) + lit_sep_y() + dec_int_bytes(g.y as int)
        + lit_sep_width() + opt_u32_bytes(g.width) + lit_sep_height() + opt_u32_bytes(g.height)
        + seq![0x7du8]
}

// ---------------------------------------------------------------------------
// The encoder
// ---------------------------------------------------------------------------

/// Appends the decimal digits of `n`.
fn push_u32_dec(out: &mut Vec<u8>, n: u32)
    ensures
        final(out)@ == old(out)@ + dec_digits(n as nat),
    decreases n,
{
    if n < 10 {
        out.push(0x30 + n as u8);
        proof {
            assert(out@ =~= old(out)@ + dec_digits(n as nat));
        }
    } else {
        push_u32_dec(out, n / 10);
        out.push(0x30 + (n % 10) as u8);
        proof {
            assert(out@ =~= old(out)@ + dec_digits(n as nat));
        }
    }
}

/// Appends the decimal rendering of `v`, minus sign included.
fn push_i32_dec(out: &mut Vec<u8>, v: i32)
    ensures
        final(out)@ == old(out)@ + dec_int_bytes(v as int),
{
    if v >= 0 {
        push_u32_dec(out, v as u32);
    } else {
        out.push(0x2d);
        let magnitude: u32 = (-(v as i64)) as u32;
        push_u32_dec(out, magnitude);
        proof {
            assert(out@ =~= old(out)@ + dec_int_bytes(v as int));
        }
    }
}

/// Appends a dimension: its digits, or `null` when absent.
fn push_opt_u32(out: &mut Vec<u8>, o: Option<u32>)
    ensures
        final(out)@ == old(out)@ + opt_u32_bytes(o),
{
    match o {
        Some(v) => {
            push_u32_dec(out, v);
        }
        None => {
            out.push(0x6e);
            out.push(0x75);
            out.push(0x6c);
            out.push(0x6c);
            proof {
                assert(out@ =~= old(out)@ + lit_null());
            }
        }
    }
}

/// Encodes a geometry record as its canonical JSON object.
pub fn encode_geometry(g: &WindowGeometry) -> (r: Vec<u8>)
    ensures
        r@ == spec_encode_geometry(*g),
{
    let mut out: Vec<u8> = Vec::new();
    out.push(0x7b);
    out.push(0x22);
    out.push(0x78);
    out.push(0x22);
    out.push(0x3a);
    proof {
        assert(out@ =~= lit_obj_x());
    }
    push_i32_dec(&mut out, g.x);
    let ghost part1 = out@;
    out.push(0x2c);
    out.push(0x22);
    out.push(0x79);
    out.push(0x22);
    out.push(0x3a);
    proof {
        assert(out@ =~= part1 + lit_sep_y());
    }
    push_i32_dec(&mut out, g.y);
    let ghost part2 = out@;
    out.push(0x2c);
    out.push(0x22);
    out.push(0x77);
    out.push(0x69);
    out.push(0x64);
    out.push(0x74);
    out.push(0x68);
    out.push(0x22);
    out.push(0x3a);
    proof {
        assert(out@ =~= part2 + lit_sep_width());
    }
    push_opt_u32(&mut out, g.width);
    let ghost part3 = out@;
    out.push(0x2c);
    out.push(0x22);
    out.push(0x68);
    out.push(0x65);
    out.push(0x69);
    out.push(0x67);
    out.push(0x68);
    out.push(0x74);
    out.push(0x22);
    out.push(0x3a);
    proof {
        assert(out@ =~= part3 + lit_sep_height());
    }
    push_opt_u32(&mut out, g.height);
    out.push(0x7d);
    proof {
        assert(out@ =~= spec_encode_geometry(*g));
    }
    out
}

// ---------------------------------------------------------------------------
// The decoder
// ---------------------------------------------------------------------------

/// Whether a byte is JSON whitespace.
fn ws_byte(b: u8) -> (r: bool)
    ensures
        r == is_ws(b),
{
    b == 0x20 || b == 0x09 || b == 0x0a || b == 0x0d
}

/// Whether a byte is an ASCII digit.
fn digit_byte(b: u8) -> (r: bool)
    ensures
        r == is_digit(b),
{
    0x30 <= b && b <= 0x39
}

/// Advances past whitespace.
fn scan_ws(s: &Vec<u8>, from: usize) -> (r: usize)
    requires
        from <= s.len(),
    ensures
        from <= r <= s.len(),
        r as int == skip_ws(s@, from as int),
{
    let mut k: usize = from;
    while k < s.len() && ws_byte(s[k])
        invariant
            from <= k <= s.len(),
            skip_ws(s@, from as int) == skip_ws(s@, k as int),
        decreases s.len() - k,
    {
        k = k + 1;
    }
    k
}

/// Advances past a digit run.
fn scan_digits(s: &Vec<u8>, from: usize) -> (r: usize)
    requires
        from <= s.len(),
    ensures
        from <= r <= s.len(),
        r as int == digits_end(s@, from as int),
        forall|t: int| from <= t < r ==> is_digit(s@[t]),
        r < s.len() ==> !is_digit(s@[r as int]),
{
    let mut k: usize = from;
    while k < s.len() && digit_byte(s[k])
        invariant
            from <= k <= s.len(),
            digits_end(s@, from as int) == digits_end(s@, k as int),
            forall|t: int| from <= t < k ==> is_digit(s@[t]),
        decreases s.len() - k,
    {
        k = k + 1;
    }
    k
}

/// A digit run denotes at least as much as any of its prefixes.
proof fn lemma_dec_val_run_ge(s: Seq<u8>, i: int, k: int, e: int)
    requires
        0 <= i <= k <= e <= s.len(),
    ensures
        dec_val(s.subrange(i, e)) >= dec_val(s.subrange(i, k)),
    decreases e - k,
{
    if k < e {
        lemma_dec_val_run_ge(s, i, k, e - 1);
        assert(s.subrange(i, e).drop_last() =~= s.subrange(i, e - 1));
        assert(dec_val(s.subrange(i, e)) == dec_val(s.subrange(i, e - 1)) * 10 + digit_val(
            s.subrange(i, e).last(),
        ));
    }
}

/// Parses an unsigned number; rejects values beyond 32 bits (no field of
/// the record holds more).
fn parse_uint_at(s: &Vec<u8>, from: usize) -> (r: Option<(u64, usize)>)
    requires
        from <= s.len(),
    ensures
        ({
            let sp = spec_parse_uint(s@, from as int);
            match r {
                Some((v, e)) => sp == Some((v as nat, e as int)) && v <= 0xffff_ffffu64 && from < e
                    <= s.len(),
                None => match sp {
                    Some((sv, se)) => sv > 0xffff_ffff,
                    None => true,
                },
            }
        }),
{
    let end: usize = scan_digits(s, from);
    if end == from {
        return None;
    }
    if s[from] == 0x30 && end > from + 1 {
        return None;
    }
    let mut acc: u64 = 0;
    let mut k: usize = from;
    proof {
        assert(s@.subrange(from as int, from as int) =~= Seq::<u8>::empty());
    }
    while k < end
        invariant
            from <= k <= end <= s.len(),
            end as int == digits_end(s@, from as int),
            end < s.len() ==> !is_digit(s@[end as int]),
            forall|t: int| from <= t < end ==> is_digit(s@[t]),
            end > from,
            !(s@[from as int] == 0x30 && end > from + 1),
            acc <= 0xffff_ffff,
            acc as nat == dec_val(s@.subrange(from as int, k as int)),
        decreases end - k,
    {
        let d: u8 = s[k];
        assert(is_digit(s@[k as int]));
        let dv: u64 = (d - 0x30) as u64;
        let acc2: u64 = acc * 10 + dv;
        proof {
            assert(s@.subrange(from as int, k as int + 1).drop_last() =~= s@.subrange(
                from as int,
                k as int,
            ));
            assert(s@.subrange(from as int, k as int + 1).last() == s@[k as int]);
            assert(dec_val(s@.subrange(from as int, k as int + 1)) == acc2 as nat);
        }
        if acc2 > 0xffff_ffff {
            proof {
                lemma_dec_val_run_ge(s@, from as int, k as int + 1, end as int);
            }
            return None;
        }
        acc = acc2;
        k = k + 1;
    }
    Some((acc, end))
}

/// Parses a signed number; rejects magnitudes beyond 32 bits.
fn parse_int_at(s: &Vec<u8>, from: usize) -> (r: Option<(i64, usize)>)
    requires
        from <= s.len(),
    ensures
        ({
            let sp = spec_parse_int(s@, from as int);
            match r {
                Some((v, e)) => sp == Some((v as int, e as int)) && -0xffff_ffff <= v as int
                    <= 0xffff_ffff && from < e <= s.len(),
                None => match sp {
                    Some((sv, se)) => sv > 0xffff_ffff || sv < -0xffff_ffff,
                    None => true,
                },
            }
        }),
{
    if from < s.len() && s[from] == 0x2d {
        match parse_uint_at(s, from + 1) {
            Some((v, e)) => Some((-(v as i64), e)),
            None => None,
        }
    } else {
        match parse_uint_at(s, from) {
            Some((v, e)) => Some((v as i64, e)),
            None => None,
        }
    }
}

/// Whether the key `"x"` stands at `i`.
fn is_key_x(s: &Vec<u8>, i: usize) -> (r: bool)
    requires
        i <= s.len(),
    ensures
        r == (i + 3 <= s@.len() && s@.subrange(i as int, i as int + 3) == key_x()),
{
    if s.len() - i >= 3 {
        let hit = s[i] == 0x22 && s[i + 1] == 0x78 && s[i + 2] == 0x22;
        proof {
            let sub = s@.subrange(i as int, i as int + 3);
            if hit {
                assert(sub =~= key_x());
            } else {
                assert(forall|t: int| 0 <= t < 3 ==> #[trigger] sub[t] == s@[i as int + t]);
                assert(sub != key_x());
            }
        }
        hit
    } else {
        false
    }
}

/// Whether the key `"y"` stands at `i`.
fn is_key_y(s: &Vec<u8>, i: usize) -> (r: bool)
    requires
        i <= s.len(),
    ensures
        r == (i + 3 <= s@.len() && s@.subrange(i as int, i as int + 3) == key_y()),
{
    if s.len() - i >= 3 {
        let hit = s[i] == 0x22 && s[i + 1] == 0x79 && s[i + 2] == 0x22;
        proof {
            let sub = s@.subrange(i as int, i as int + 3);
            if hit {
                assert(sub =~= key_y());
            } else {
                assert(forall|t: int| 0 <= t < 3 ==> #[trigger] sub[t] == s@[i as int + t]);
                assert(sub != key_y());
            }
        }
        hit
    } else {
        false
    }
}

/// Whether the key `"width"` stands at `i`.
fn is_key_width(s: &Vec<u8>, i: usize) -> (r: bool)
    requires
        i <= s.len(),
    ensures
        r == (i + 7 <= s@.len() && s@.subrange(i as int, i as int + 7) == key_width()),
{
    if s.len() - i >= 7 {
        let hit = s[i] == 0x22 && s[i + 1] == 0x77 && s[i + 2] == 0x69 && s[i + 3] == 0x64 && s[i
            + 4] == 0x74 && s[i + 5] == 0x68 && s[i + 6] == 0x22;
        proof {
            let sub = s@.subrange(i as int, i as int + 7);
            if hit {
                assert(sub =~= key_width());
            } else {
                assert(forall|t: int| 0 <= t < 7 ==> #[trigger] sub[t] == s@[i as int + t]);
                assert(sub != key_width());
            }
        }
        hit
    } else {
        false
    }
}

/// Whether the key `"height"` stands at `i`.
fn is_key_height(s: &Vec<u8>, i: usize) -> (r: bool)
    requires
        i <= s.len(),
    ensures
        r == (i + 8 <= s@.len() && s@.subrange(i as int, i as int + 8) == key_height()),
{
    if s.len() - i >= 8 {
        let hit = s[i] == 0x22 && s[i + 1] == 0x68 && s[i + 2] == 0x65 && s[i + 3] == 0x69 && s[i
            + 4] == 0x67 && s[i + 5] == 0x68 && s[i + 6] == 0x74 && s[i + 7] == 0x22;
        proof {
            let sub = s@.subrange(i as int, i as int + 8);
            if hit {
                assert(sub =~= key_height());
            } else {
                assert(forall|t: int| 0 <= t < 8 ==> #[trigger] sub[t] == s@[i as int + t]);
                assert(sub != key_height());
            }
        }
        hit
    } else {
        false
    }
}

/// Whether the literal `null` stands at `i`.
fn is_lit_null(s: &Vec<u8>, i: usize) -> (r: bool)
    requires
        i <= s.len(),
    ensures
        r == (i + 4 <= s@.len() && s@.subrange(i as int, i as int + 4) == lit_null()),
{
    if s.len() - i >= 4 {
        let hit = s[i] == 0x6e && s[i + 1] == 0x75 && s[i + 2] == 0x6c && s[i + 3] == 0x6c;
        proof {
            let sub = s@.subrange(i as int, i as int + 4);
            if hit {
                assert(sub =~= lit_null());
            } else {
                assert(forall|t: int| 0 <= t < 4 ==> #[trigger] sub[t] == s@[i as int + t]);
                assert(sub != lit_null());
            }
        }
        hit
    } else {
        false
    }
}

/// Builds the record at the closing brace.
fn finish(
    px: Option<i32>,
    py: Option<i32>,
    pw: Option<Option<u32>>,
    ph: Option<Option<u32>>,
) -> (r: Option<WindowGeometry>)
    ensures
        r == spec_finish(px, py, pw, ph),
{
    match (px, py) {
        (Some(x), Some(y)) => {
            let width: Option<u32> = match pw {
                Some(Some(v)) => Some(v),
                _ => None,
            };
            let height: Option<u32> = match ph {
                Some(Some(v)) => Some(v),
                _ => None,
            };
            Some(WindowGeometry { x, y, width, height })
        }
        _ => None,
    }
}

/// Parses one member, starting at its key.
fn parse_members(
    s: &Vec<u8>,
    i: usize,
    px: Option<i32>,
    py: Option<i32>,
    pw: Option<Option<u32>>,
    ph: Option<Option<u32>>,
    fuel: u8,
) -> (r: Option<WindowGeometry>)
    requires
        i <= s.len(),
    ensures
        r == spec_members(s@, i as int, px, py, pw, ph, fuel as nat),
    decreases fuel, 1int,
{
    if fuel == 0 {
        None
    } else if is_key_x(s, i) {
        if px.is_some() {
            None
        } else {
            let j: usize = scan_ws(s, i + 3);
            if j < s.len() && s[j] == 0x3a {
                let k: usize = scan_ws(s, j + 1);
                match parse_int_at(s, k) {
                    Some((v, e)) => {
                        if -0x8000_0000i64 <= v && v <= 0x7fff_ffffi64 {
                            parse_tail(s, e, Some(v as i32), py, pw, ph, fuel)
                        } else {
                            None
                        }
                    }
                    None => None,
                }
            } else {
                None
            }
        }
    } else if is_key_y(s, i) {
        if py.is_some() {
            None
        } else {
            let j: usize = scan_ws(s, i + 3);
            if j < s.len() && s[j] == 0x3a {
                let k: usize = scan_ws(s, j + 1);
                match parse_int_at(s, k) {
                    Some((v, e)) => {
                        if -0x8000_0000i64 <= v && v <= 0x7fff_ffffi64 {
                            parse_tail(s, e, px, Some(v as i32), pw, ph, fuel)
                        } else {
                            None
                        }
                    }
                    None => None,
                }
            } else {
                None
            }
        }
    } else if is_key_width(s, i) {
        if pw.is_some() {
            None
        } else {
            let j: usize = scan_ws(s, i + 7);
            if j < s.len() && s[j] == 0x3a {
                let k: usize = scan_ws(s, j + 1);
                if is_lit_null(s, k) {
                    parse_tail(s, k + 4, px, py, Some(None), ph, fuel)
                } else {
                    match parse_uint_at(s, k) {
                        Some((v, e)) => parse_tail(
                            s,
                            e,
                            px,
                            py,
                            Some(Some(v as u32)),
                            ph,
                            fuel,
                        ),
                        None => None,
                    }
                }
            } else {
                None
            }
        }
    } else if is_key_height(s, i) {
        if ph.is_some() {
            None
        } else {
            let j: usize = scan_ws(s, i + 8);
            if j < s.len() && s[j] == 0x3a {
                let k: usize = scan_ws(s, j + 1);
                if is_lit_null(s, k) {
                    parse_tail(s, k + 4, px, py, pw, Some(None), fuel)
                } else {
                    match parse_uint_at(s, k) {
                        Some((v, e)) => parse_tail(
                            s,
                            e,
                            px,
                            py,
                            pw,
                            Some(Some(v as u32)),
                            fuel,
                        ),
                        None => None,
                    }
                }
            } else {
                None
            }
        }
    } else {
        None
    }
}

/// Parses what follows a member's value.
fn parse_tail(
    s: &Vec<u8>,
    i: usize,
    px: Option<i32>,
    py: Option<i32>,
    pw: Option<Option<u32>>,
    ph: Option<Option<u32>>,
    fuel: u8,
) -> (r: Option<WindowGeometry>)
    requires
        i <= s.len(),
    ensures
        r == spec_tail(s@, i as int, px, py, pw, ph, fuel as nat),
    decreases fuel, 0int,
{
    if fuel == 0 {
        None
    } else {
        let m: usize = scan_ws(s, i);
        if m < s.len() && s[m] == 0x2c {
            let n: usize = scan_ws(s, m + 1);
            parse_members(s, n, px, py, pw, ph, fuel - 1)
        } else if m < s.len() && s[m] == 0x7d {
            if scan_ws(s, m + 1) == s.len() {
                finish(px, py, pw, ph)
            } else {
                None
            }
        } else {
            None
        }
    }
}

// ---------------------------------------------------------------------------
// The round trip
// ---------------------------------------------------------------------------

/// `skip_ws` stops at once on a non-whitespace byte or at the end.
proof fn lemma_skip_ws_stop(s: Seq<u8>, i: int)
    requires
        0 <= i <= s.len(),
        i == s.len() || !is_ws(s[i]),
    ensures
        skip_ws(s, i) == i,
{
}

/// A digit run bounded by a non-digit ends exactly at the boundary.
proof fn lemma_digits_end_of_run(s: Seq<u8>, i: int, j: int)
    requires
        0 <= i <= j <= s.len(),
        forall|t: int| i <= t < j ==> is_digit(#[trigger] s[t]),
        j == s.len() || !is_digit(s[j]),
    ensures
        digits_end(s, i) == j,
    decreases j - i,
{
    if i < j {
        lemma_digits_end_of_run(s, i + 1, j);
    }
}

/// Parsing an unsigned number from its exact rendering yields the number
/// and stops right after it.
proof fn lemma_parse_uint_exact(s: Seq<u8>, i: int, n: nat)
    requires
        0 <= i,
        i + dec_digits(n).len() <= s.len(),
        s.subrange(i, i + dec_digits(n).len()) == dec_digits(n),
        i + dec_digits(n).len() == s.len() || !is_digit(s[i + dec_digits(n).len()]),
    ensures
        spec_parse_uint(s, i) == Some((n, i + dec_digits(n).len())),
{
    lemma_dec_digits(n);
    let dd = dec_digits(n);
    let e = i + dd.len();
    assert forall|t: int| i <= t < e implies is_digit(#[trigger] s[t]) by {
        assert(s[t] == s.subrange(i, e)[t - i]);
    }
    lemma_digits_end_of_run(s, i, e);
    assert(s[i] == s.subrange(i, e)[0]);
    if n == 0 {
        assert(dd.len() == 1);
    } else {
        assert(s[i] != 0x30);
    }
    assert(dec_val(s.subrange(i, e)) == n);
}

/// Parsing a signed number from its exact rendering yields the number.
proof fn lemma_parse_int_exact(s: Seq<u8>, i: int, v: int)
    requires
        0 <= i,
        i + dec_int_bytes(v).len() <= s.len(),
        s.subrange(i, i + dec_int_bytes(v).len()) == dec_int_bytes(v),
        i + dec_int_bytes(v).len() == s.len() || !is_digit(s[i + dec_int_bytes(v).len()]),
    ensures
        spec_parse_int(s, i) == Some((v, i + dec_int_bytes(v).len())),
{
    let ib = dec_int_bytes(v);
    let e = i + ib.len();
    if v < 0 {
        let m = (-v) as nat;
        let dd = dec_digits(m);
        assert(ib == seq![0x2du8] + dd);
        assert(s[i] == s.subrange(i, e)[0]);
        assert(s[i] == 0x2d);
        assert(at(s, i, 0x2d));
        assert(s.subrange(i + 1, i + 1 + dd.len()) =~= dd) by {
            assert forall|t: int| 0 <= t < dd.len() implies s.subrange(
                i + 1,
                i + 1 + dd.len(),
            )[t] == dd[t] by {
                assert(s.subrange(i + 1, i + 1 + dd.len())[t] == s[i + 1 + t]);
                assert(s[i + 1 + t] == s.subrange(i, e)[1 + t]);
            }
        }
        lemma_parse_uint_exact(s, i + 1, m);
    } else {
        lemma_dec_digits(v as nat);
        assert(s[i] == s.subrange(i, e)[0]);
        assert(is_digit(s[i]));
        assert(!at(s, i, 0x2d));
        lemma_parse_uint_exact(s, i, v as nat);
    }
}

/// A segment taken from the left part of a concatenation.
proof fn lemma_concat_sub_prefix(x: Seq<u8>, y: Seq<u8>, a: int, b: int)
    requires
        0 <= a <= b <= x.len(),
    ensures
        (x + y).subrange(a, b) == x.subrange(a, b),
{
    assert((x + y).subrange(a, b) =~= x.subrange(a, b));
}

/// A segment taken from the right part of a concatenation.
proof fn lemma_concat_sub_suffix(x: Seq<u8>, y: Seq<u8>, a: int, b: int)
    requires
        0 <= a <= b <= y.len(),
    ensures
        (x + y).subrange(x.len() + a, x.len() + b) == y.subrange(a, b),
{
    assert((x + y).subrange(x.len() + a, x.len() + b) =~= y.subrange(a, b));
}

/// Marks a member as seen: what the decoder records for a dimension that
/// was written out (a number, or `null` for an absent one).
pub open spec fn present(o: Option<u32>) -> Option<Option<u32>> {
    match o {
        Some(v) => Some(Some(v)),
        None => Some(None),
    }
}

/// One decoding step over the member `"x": <int>` as the encoder renders
/// it: no inner whitespace, the value followed by a non-digit.
proof fn lemma_step_x(
    s: Seq<u8>,
    i: int,
    v: i32,
    py: Option<i32>,
    pw: Option<Option<u32>>,
    ph: Option<Option<u32>>,
    fuel: nat,
)
    requires
        fuel >= 1,
        0 <= i,
        i + 4 + dec_int_bytes(v as int).len() <= s.len(),
        s.subrange(i, i + 3) == key_x(),
        s[i + 3] == 0x3a,
        s.subrange(i + 4, i + 4 + dec_int_bytes(v as int).len()) == dec_int_bytes(v as int),
        i + 4 + dec_int_bytes(v as int).len() == s.len() || !is_digit(
            s[i + 4 + dec_int_bytes(v as int).len()],
        ),
    ensures
        spec_members(s, i, None, py, pw, ph, fuel) == spec_tail(
            s,
            i + 4 + dec_int_bytes(v as int).len(),
            Some(v),
            py,
            pw,
            ph,
            fuel,
        ),
{
    let ib = dec_int_bytes(v as int);
    lemma_skip_ws_stop(s, i + 3);
    assert(s[i + 4] == s.subrange(i + 4, i + 4 + ib.len())[0]);
    if v < 0 {
        lemma_dec_digits((-(v as int)) as nat);
        assert(ib[0] == 0x2d);
    } else {
        lemma_dec_digits((v as int) as nat);
        assert(is_digit(ib[0]));
    }
    lemma_skip_ws_stop(s, i + 4);
    lemma_parse_int_exact(s, i + 4, v as int);
}

/// One decoding step over the member `"y": <int>`.
proof fn lemma_step_y(
    s: Seq<u8>,
    i: int,
    v: i32,
    px: Option<i32>,
    pw: Option<Option<u32>>,
    ph: Option<Option<u32>>,
    fuel: nat,
)
    requires
        fuel >= 1,
        0 <= i,
        i + 4 + dec_int_bytes(v as int).len() <= s.len(),
        s.subrange(i, i + 3) == key_y(),
        s[i + 3] == 0x3a,
        s.subrange(i + 4, i + 4 + dec_int_bytes(v as int).len()) == dec_int_bytes(v as int),
        i + 4 + dec_int_bytes(v as int).len() == s.len() || !is_digit(
            s[i + 4 + dec_int_bytes(v as int).len()],
        ),
    ensures
        spec_members(s, i, px, None, pw, ph, fuel) == spec_tail(
            s,
            i + 4 + dec_int_bytes(v as int).len(),
            px,
            Some(v),
            pw,
            ph,
            fuel,
        ),
{
    let ib = dec_int_bytes(v as int);
    assert(s.subrange(i, i + 3) != key_x()) by {
        assert(s.subrange(i, i + 3)[1] == 0x79);
        assert(key_x()[1] == 0x78);
    }
    lemma_skip_ws_stop(s, i + 3);
    assert(s[i + 4] == s.subrange(i + 4, i + 4 + ib.len())[0]);
    if v < 0 {
        lemma_dec_digits((-(v as int)) as nat);
        assert(ib[0] == 0x2d);
    } else {
        lemma_dec_digits((v as int) as nat);
        assert(is_digit(ib[0]));
    }
    lemma_skip_ws_stop(s, i + 4);
    lemma_parse_int_exact(s, i + 4, v as int);
}

/// One decoding step over the member `"width": <uint|null>`.
proof fn lemma_step_width(
    s: Seq<u8>,
    i: int,
    o: Option<u32>,
    px: Option<i32>,
    py: Option<i32>,
    ph: Option<Option<u32>>,
    fuel: nat,
)
    requires
        fuel >= 1,
        0 <= i,
        i + 8 + opt_u32_bytes(o).len() <= s.len(),
        s.subrange(i, i + 7) == key_width(),
        s[i + 7] == 0x3a,
        s.subrange(i + 8, i + 8 + opt_u32_bytes(o).len()) == opt_u32_bytes(o),
        i + 8 + opt_u32_bytes(o).len() == s.len() || !is_digit(
            s[i + 8 + opt_u32_bytes(o).len()],
        ),
    ensures
        spec_members(s, i, px, py, None, ph, fuel) == spec_tail(
            s,
            i + 8 + opt_u32_bytes(o).len(),
            px,
            py,
            present(o),
            ph,
            fuel,
        ),
{
    let ob = opt_u32_bytes(o);
    let k = i + 8;
    assert(s.subrange(i, i + 3) =~= seq![s[i], s[i + 1], s[i + 2]]);
    assert(s[i + 1] == s.subrange(i, i + 7)[1]);
    assert(s.subrange(i, i + 3) != key_x()) by {
        assert(s.subrange(i, i + 3)[1] == s[i + 1]);
        assert(key_width()[1] == 0x77 && key_x()[1] == 0x78);
    }
    assert(s.subrange(i, i + 3) != key_y()) by {
        assert(s.subrange(i, i + 3)[1] == s[i + 1]);
        assert(key_y()[1] == 0x79);
    }
    lemma_skip_ws_stop(s, i + 7);
    assert(s[k] == s.subrange(k, k + ob.len())[0]);
    match o {
        None => {
            assert(ob == lit_null());
            assert(s.subrange(k, k + 4) == lit_null());
            lemma_skip_ws_stop(s, k);
        }
        Some(v) => {
            lemma_dec_digits(v as nat);
            assert(is_digit(ob[0]));
            lemma_skip_ws_stop(s, k);
            if k + 4 <= s.len() {
                assert(s.subrange(k, k + 4) != lit_null()) by {
                    assert(s.subrange(k, k + 4)[0] == s[k]);
                    assert(lit_null()[0] == 0x6e);
                }
            }
            lemma_parse_uint_exact(s, k, v as nat);
        }
    }
}

/// One decoding step over the member `"height": <uint|null>`.
proof fn lemma_step_height(
    s: Seq<u8>,
    i: int,
    o: Option<u32>,
    px: Option<i32>,
    py: Option<i32>,
    pw: Option<Option<u32>>,
    fuel: nat,
)
    requires
        fuel >= 1,
        0 <= i,
        i + 9 + opt_u32_bytes(o).len() <= s.len(),
        s.subrange(i, i + 8) == key_height(),
        s[i + 8] == 0x3a,
        s.subrange(i + 9, i + 9 + opt_u32_bytes(o).len()) == opt_u32_bytes(o),
        i + 9 + opt_u32_bytes(o).len() == s.len() || !is_digit(
            s[i + 9 + opt_u32_bytes(o).len()],
        ),
    ensures
        spec_members(s, i, px, py, pw, None, fuel) == spec_tail(
            s,
            i + 9 + opt_u32_bytes(o).len(),
            px,
            py,
            pw,
            present(o),
            fuel,
        ),
{
    let ob = opt_u32_bytes(o);
    let k = i + 9;
    assert(s[i + 1] == s.subrange(i, i + 8)[1]);
    assert(s.subrange(i, i + 3) != key_x()) by {
        assert(s.subrange(i, i + 3)[1] == s[i + 1]);
        assert(key_height()[1] == 0x68 && key_x()[1] == 0x78);
    }
    assert(s.subrange(i, i + 3) != key_y()) by {
        assert(s.subrange(i, i + 3)[1] == s[i + 1]);
        assert(key_y()[1] == 0x79);
    }
    assert(s.subrange(i, i + 7) != key_width()) by {
        assert(s.subrange(i, i + 7)[1] == s[i + 1]);
        assert(key_width()[1] == 0x77);
    }
    lemma_skip_ws_stop(s, i + 8);
    assert(s[k] == s.subrange(k, k + ob.len())[0]);
    match o {
        None => {
            assert(ob == lit_null());
            assert(s.subrange(k, k + 4) == lit_null());
            lemma_skip_ws_stop(s, k);
        }
        Some(v) => {
            lemma_dec_digits(v as nat);
            assert(is_digit(ob[0]));
            lemma_skip_ws_stop(s, k);
            if k + 4 <= s.len() {
                assert(s.subrange(k, k + 4) != lit_null()) by {
                    assert(s.subrange(k, k + 4)[0] == s[k]);
                    assert(lit_null()[0] == 0x6e);
                }
            }
            lemma_parse_uint_exact(s, k, v as nat);
        }
    }
}

/// A comma after a member's value continues with the next member.
proof fn lemma_tail_comma(
    s: Seq<u8>,
    i: int,
    px: Option<i32>,
    py: Option<i32>,
    pw: Option<Option<u32>>,
    ph: Option<Option<u32>>,
    fuel: nat,
)
    requires
        fuel >= 1,
        0 <= i,
        i + 1 < s.len(),
        s[i] == 0x2c,
        !is_ws(s[i + 1]),
    ensures
        spec_tail(s, i, px, py, pw, ph, fuel) == spec_members(
            s,
            i + 1,
            px,
            py,
            pw,
            ph,
            (fuel - 1) as nat,
        ),
{
    lemma_skip_ws_stop(s, i);
    lemma_skip_ws_stop(s, i + 1);
}

/// A closing brace at the last byte finishes the record.
proof fn lemma_tail_close(
    s: Seq<u8>,
    i: int,
    px: Option<i32>,
    py: Option<i32>,
    pw: Option<Option<u32>>,
    ph: Option<Option<u32>>,
    fuel: nat,
)
    requires
        fuel >= 1,
        0 <= i,
        i + 1 == s.len(),
        s[i] == 0x7d,
    ensures
        spec_tail(s, i, px, py, pw, ph, fuel) == spec_finish(px, py, pw, ph),
{
    lemma_skip_ws_stop(s, i);
    lemma_skip_ws_stop(s, i + 1);
}

/// Decoding an encoded record returns the record exactly: saving the
/// geometry and loading it back restores the same values, for every record.
#[verifier::rlimit(100)]
pub proof fn lemma_encode_then_parse(g: WindowGeometry)
    ensures
        spec_parse_geometry(spec_encode_geometry(g)) == Some(g),
{
    let s = spec_encode_geometry(g);
    let ax = dec_int_bytes(g.x as int);
    let ay = dec_int_bytes(g.y as int);
    let aw = opt_u32_bytes(g.width);
    let ah = opt_u32_bytes(g.height);
    let c1 = lit_obj_x() + ax;
    let c2 = c1 + lit_sep_y();
    let c3 = c2 + ay;
    let c4 = c3 + lit_sep_width();
    let c5 = c4 + aw;
    let c6 = c5 + lit_sep_height();
    let c7 = c6 + ah;
    assert(s == c7 + seq![0x7du8]);
    let p1 = 5 + ax.len() as int;
    let p2 = p1 + 5 + ay.len();
    let p3 = p2 + 9 + aw.len();
    let p4 = p3 + 10 + ah.len();
    assert(s.len() == p4 + 1);

    // Where each encoded part stands in the whole string.
    lemma_concat_sub_prefix(c7, seq![0x7du8], 0, 5);
    lemma_concat_sub_prefix(c6, ah, 0, 5);
    lemma_concat_sub_prefix(c5, lit_sep_height(), 0, 5);
    lemma_concat_sub_prefix(c4, aw, 0, 5);
    lemma_concat_sub_prefix(c3, lit_sep_width(), 0, 5);
    lemma_concat_sub_prefix(c2, ay, 0, 5);
    lemma_concat_sub_prefix(c1, lit_sep_y(), 0, 5);
    lemma_concat_sub_prefix(lit_obj_x(), ax, 0, 5);
    assert(lit_obj_x().subrange(0, 5) =~= lit_obj_x());
    assert(s.subrange(0, 5) == lit_obj_x());

    lemma_concat_sub_prefix(c7, seq![0x7du8], 5, p1);
    lemma_concat_sub_prefix(c6, ah, 5, p1);
    lemma_concat_sub_prefix(c5, lit_sep_height(), 5, p1);
    lemma_concat_sub_prefix(c4, aw, 5, p1);
    lemma_concat_sub_prefix(c3, lit_sep_width(), 5, p1);
    lemma_concat_sub_prefix(c2, ay, 5, p1);
    lemma_concat_sub_prefix(c1, lit_sep_y(), 5, p1);
    lemma_concat_sub_suffix(lit_obj_x(), ax, 0, ax.len() as int);
    assert(ax.subrange(0, ax.len() as int) =~= ax);
    assert(s.subrange(5, p1) == ax);

    lemma_concat_sub_prefix(c7, seq![0x7du8], p1, p1 + 5);
    lemma_concat_sub_prefix(c6, ah, p1, p1 + 5);
    lemma_concat_sub_prefix(c5, lit_sep_height(), p1, p1 + 5);
    lemma_concat_sub_prefix(c4, aw, p1, p1 + 5);
    lemma_concat_sub_prefix(c3, lit_sep_width(), p1, p1 + 5);
    lemma_concat_sub_prefix(c2, ay, p1, p1 + 5);
    lemma_concat_sub_suffix(c1, lit_sep_y(), 0, 5);
    assert(lit_sep_y().subrange(0, 5) =~= lit_sep_y());
    assert(s.subrange(p1, p1 + 5) == lit_sep_y());

    lemma_concat_sub_prefix(c7, seq![0x7du8], p1 + 5, p2);
    lemma_concat_sub_prefix(c6, ah, p1 + 5, p2);
    lemma_concat_sub_prefix(c5, lit_sep_height(), p1 + 5, p2);
    lemma_concat_sub_prefix(c4, aw, p1 + 5, p2);
    lemma_concat_sub_prefix(c3, lit_sep_width(), p1 + 5, p2);
    lemma_concat_sub_suffix(c2, ay, 0, ay.len() as int);
    assert(ay.subrange(0, ay.len() as int) =~= ay);
    assert(s.subrange(p1 + 5, p2) == ay);

    lemma_concat_sub_prefix(c7, seq![0x7du8], p2, p2 + 9);
    lemma_concat_sub_prefix(c6, ah, p2, p2 + 9);
    lemma_concat_sub_prefix(c5, lit_sep_height(), p2, p2 + 9);
    lemma_concat_sub_prefix(c4, aw, p2, p2 + 9);
    lemma_concat_sub_suffix(c3, lit_sep_width(), 0, 9);
    assert(lit_sep_width().subrange(0, 9) =~= lit_sep_width());
    assert(s.subrange(p2, p2 + 9) == lit_sep_width());

    lemma_concat_sub_prefix(c7, seq![0x7du8], p2 + 9, p3);
    lemma_concat_sub_prefix(c6, ah, p2 + 9, p3);
    lemma_concat_sub_prefix(c5, lit_sep_height(), p2 + 9, p3);
    lemma_concat_sub_suffix(c4, aw, 0, aw.len() as int);
    assert(aw.subrange(0, aw.len() as int) =~= aw);
    assert(s.subrange(p2 + 9, p3) == aw);

    lemma_concat_sub_prefix(c7, seq![0x7du8], p3, p3 + 10);
    lemma_concat_sub_prefix(c6, ah, p3, p3 + 10);
    lemma_concat_sub_suffix(c5, lit_sep_height(), 0, 10);
    assert(lit_sep_height().subrange(0, 10) =~= lit_sep_height());
    assert(s.subrange(p3, p3 + 10) == lit_sep_height());

    lemma_concat_sub_prefix(c7, seq![0x7du8], p3 + 10, p4);
    lemma_concat_sub_suffix(c6, ah, 0, ah.len() as int);
    assert(ah.subrange(0, ah.len() as int) =~= ah);
    assert(s.subrange(p3 + 10, p4) == ah);

    assert(s[p4] == 0x7d);

    // The individual bytes of the fixed parts.
    assert(s[0] == s.subrange(0, 5)[0] && s[1] == s.subrange(0, 5)[1] && s[2] == s.subrange(
        0,
        5,
    )[2] && s[3] == s.subrange(0, 5)[3] && s[4] == s.subrange(0, 5)[4]);
    assert(s.subrange(1, 4) =~= key_x());
    assert(s[p1] == s.subrange(p1, p1 + 5)[0] && s[p1 + 1] == s.subrange(p1, p1 + 5)[1] && s[p1
        + 2] == s.subrange(p1, p1 + 5)[2] && s[p1 + 3] == s.subrange(p1, p1 + 5)[3] && s[p1 + 4]
        == s.subrange(p1, p1 + 5)[4]);
    assert(s.subrange(p1 + 1, p1 + 4) =~= key_y());
    assert(forall|t: int|
        0 <= t < 9 ==> s[p2 + t] == #[trigger] s.subrange(p2, p2 + 9)[t]);
    assert(s.subrange(p2 + 1, p2 + 8) =~= key_width());
    assert(s[p2 + 8] == 0x3a);
    assert(forall|t: int|
        0 <= t < 10 ==> s[p3 + t] == #[trigger] s.subrange(p3, p3 + 10)[t]);
    assert(s.subrange(p3 + 1, p3 + 9) =~= key_height());
    assert(s[p3 + 9] == 0x3a);

    // Decode, member by member.
    lemma_skip_ws_stop(s, 0);
    assert(at(s, 0, 0x7b));
    lemma_skip_ws_stop(s, 1);
    assert(spec_parse_geometry(s) == spec_members(s, 1, None, None, None, None, 5));
    lemma_step_x(s, 1, g.x, None, None, None, 5);
    assert(s[p1] == 0x2c && !is_digit(0x2c));
    lemma_tail_comma(s, p1, Some(g.x), None, None, None, 5);
    lemma_step_y(s, p1 + 1, g.y, Some(g.x), None, None, 4);
    assert(s[p2] == 0x2c);
    lemma_tail_comma(s, p2, Some(g.x), Some(g.y), None, None, 4);
    lemma_step_width(s, p2 + 1, g.width, Some(g.x), Some(g.y), None, 3);
    assert(s[p3] == 0x2c);
    lemma_tail_comma(s, p3, Some(g.x), Some(g.y), present(g.width), None, 3);
    lemma_step_height(s, p3 + 1, g.height, Some(g.x), Some(g.y), present(g.width), 2);
    assert(!is_digit(0x7d));
    lemma_tail_close(s, p4, Some(g.x), Some(g.y), present(g.width), present(g.height), 2);
    assert(flatten_opt(present(g.width)) == g.width);
    assert(flatten_opt(present(g.height)) == g.height);
    assert(WindowGeometry { x: g.x, y: g.y, width: g.width, height: g.height } == g);
}

/// A member list in a string without a closing brace decodes to nothing.
proof fn lemma_members_no_brace(
    s: Seq<u8>,
    i: int,
    px: Option<i32>,
    py: Option<i32>,
    pw: Option<Option<u32>>,
    ph: Option<Option<u32>>,
    fuel: nat,
)
    requires
        forall|t: int| 0 <= t < s.len() ==> s[t] != 0x7d,
    ensures
        spec_members(s, i, px, py, pw, ph, fuel) is None,
    decreases fuel, 1int,
{
    if fuel == 0 {
    } else if 0 <= i && i + 3 <= s.len() && s.subrange(i, i + 3) == key_x() {
        if px is None {
            let j = skip_ws(s, i + 3);
            if at(s, j, 0x3a) {
                match spec_parse_int(s, skip_ws(s, j + 1)) {
                    Some((v, e)) => {
                        lemma_tail_no_brace(s, e, Some(v as i32), py, pw, ph, fuel);
                    }
                    None => {}
                }
            }
        }
    } else if 0 <= i && i + 3 <= s.len() && s.subrange(i, i + 3) == key_y() {
        if py is None {
            let j = skip_ws(s, i + 3);
            if at(s, j, 0x3a) {
                match spec_parse_int(s, skip_ws(s, j + 1)) {
                    Some((v, e)) => {
                        lemma_tail_no_brace(s, e, px, Some(v as i32), pw, ph, fuel);
                    }
                    None => {}
                }
            }
        }
    } else if 0 <= i && i + 7 <= s.len() && s.subrange(i, i + 7) == key_width() {
        if pw is None {
            let j = skip_ws(s, i + 7);
            if at(s, j, 0x3a) {
                let k = skip_ws(s, j + 1);
                if k + 4 <= s.len() && s.subrange(k, k + 4) == lit_null() {
                    lemma_tail_no_brace(s, k + 4, px, py, Some(None), ph, fuel);
                } else {
                    match spec_parse_uint(s, k) {
                        Some((v, e)) => {
                            if v <= 0xffff_ffff {
                                lemma_tail_no_brace(s, e, px, py, Some(Some(v as u32)), ph, fuel);
                            }
                        }
                        None => {}
                    }
                }
            }
        }
    } else if 0 <= i && i + 8 <= s.len() && s.subrange(i, i + 8) == key_height() {
        if ph is None {
            let j = skip_ws(s, i + 8);
            if at(s, j, 0x3a) {
                let k = skip_ws(s, j + 1);
                if k + 4 <= s.len() && s.subrange(k, k + 4) == lit_null() {
                    lemma_tail_no_brace(s, k + 4, px, py, pw, Some(None), fuel);
                } else {
                    match spec_parse_uint(s, k) {
                        Some((v, e)) => {
                            if v <= 0xffff_ffff {
                                lemma_tail_no_brace(s, e, px, py, pw, Some(Some(v as u32)), fuel);
                            }
                        }
                        None => {}
                    }
                }
            }
        }
    }
}

/// What follows a value in a string without a closing brace decodes to
/// nothing: the record can never be finished.
proof fn lemma_tail_no_brace(
    s: Seq<u8>,
    i: int,
    px: Option<i32>,
    py: Option<i32>,
    pw: Option<Option<u32>>,
    ph: Option<Option<u32>>,
    fuel: nat,
)
    requires
        forall|t: int| 0 <= t < s.len() ==> s[t] != 0x7d,
    ensures
        spec_tail(s, i, px, py, pw, ph, fuel) is None,
    decreases fuel, 0int,
{
    if fuel == 0 || !(0 <= i <= s.len()) {
    } else {
        let m = skip_ws(s, i);
        if at(s, m, 0x2c) {
            lemma_members_no_brace(s, skip_ws(s, m + 1), px, py, pw, ph, (fuel - 1) as nat);
        }
    }
}

/// A string without a closing brace — an empty file, or any truncation of
/// a record, which always cuts the final brace away — holds no record.
pub proof fn lemma_unclosed_record_is_rejected(s: Seq<u8>)
    requires
        forall|t: int| 0 <= t < s.len() ==> s[t] != 0x7d,
    ensures
        spec_parse_geometry(s) is None,
{
    let i = skip_ws(s, 0);
    if at(s, i, 0x7b) {
        lemma_members_no_brace(s, skip_ws(s, i + 1), None, None, None, None, 5);
    }
}

/// No closing brace anywhere in the bytes.
spec fn brace_free(s: Seq<u8>) -> bool {
    forall|t: int| 0 <= t < s.len() ==> s[t] != 0x7d
}

/// Brace-free parts concatenate to a brace-free whole.
proof fn lemma_concat_brace_free(x: Seq<u8>, y: Seq<u8>)
    requires
        brace_free(x),
        brace_free(y),
    ensures
        brace_free(x + y),
{
    assert forall|t: int| 0 <= t < (x + y).len() implies (x + y)[t] != 0x7d by {
        if t < x.len() {
            assert((x + y)[t] == x[t]);
        } else {
            assert((x + y)[t] == y[t - x.len()]);
        }
    }
}

/// The rendering of a signed number holds only a sign and digits.
proof fn lemma_int_bytes_brace_free(v: int)
    ensures
        brace_free(dec_int_bytes(v)),
{
    if v < 0 {
        lemma_dec_digits((-v) as nat);
        assert forall|t: int| 0 <= t < dec_int_bytes(v).len() implies dec_int_bytes(v)[t]
            != 0x7d by {
            if t > 0 {
                assert(dec_int_bytes(v)[t] == dec_digits((-v) as nat)[t - 1]);
                assert(is_digit(dec_digits((-v) as nat)[t - 1]));
            }
        }
    } else {
        lemma_dec_digits(v as nat);
        assert forall|t: int| 0 <= t < dec_int_bytes(v).len() implies dec_int_bytes(v)[t]
            != 0x7d by {
            assert(is_digit(dec_digits(v as nat)[t]));
        }
    }
}

/// The rendering of an optional dimension holds only digits or `null`.
proof fn lemma_opt_bytes_brace_free(o: Option<u32>)
    ensures
        brace_free(opt_u32_bytes(o)),
{
    match o {
        Some(v) => {
            lemma_dec_digits(v as nat);
            assert forall|t: int| 0 <= t < opt_u32_bytes(o).len() implies opt_u32_bytes(o)[t]
                != 0x7d by {
                assert(is_digit(dec_digits(v as nat)[t]));
            }
        }
        None => {}
    }
}

/// Every truncation of an encoded record — which always cuts the final
/// closing brace away — decodes to nothing: a half-written state file
/// restores nothing rather than something wrong.
pub proof fn lemma_truncated_record_is_rejected(g: WindowGeometry, cut: int)
    requires
        0 <= cut < spec_encode_geometry(g).len(),
    ensures
        spec_parse_geometry(spec_encode_geometry(g).subrange(0, cut)) is None,
{
    let s = spec_encode_geometry(g);
    let c1 = lit_obj_x() + dec_int_bytes(g.x as int);
    let c2 = c1 + lit_sep_y();
    let c3 = c2 + dec_int_bytes(g.y as int);
    let c4 = c3 + lit_sep_width();
    let c5 = c4 + opt_u32_bytes(g.width);
    let c6 = c5 + lit_sep_height();
    let c7 = c6 + opt_u32_bytes(g.height);
    assert(s == c7 + seq![0x7du8]);
    lemma_int_bytes_brace_free(g.x as int);
    lemma_int_bytes_brace_free(g.y as int);
    lemma_opt_bytes_brace_free(g.width);
    lemma_opt_bytes_brace_free(g.height);
    lemma_concat_brace_free(lit_obj_x(), dec_int_bytes(g.x as int));
    lemma_concat_brace_free(c1, lit_sep_y());
    lemma_concat_brace_free(c2, dec_int_bytes(g.y as int));
    lemma_concat_brace_free(c3, lit_sep_width());
    lemma_concat_brace_free(c4, opt_u32_bytes(g.width));
    lemma_concat_brace_free(c5, lit_sep_height());
    lemma_concat_brace_free(c6, opt_u32_bytes(g.height));
    let p = s.subrange(0, cut);
    assert forall|t: int| 0 <= t < p.len() implies p[t] != 0x7d by {
        assert(p[t] == s[t]);
        assert(s[t] == c7[t]);
    }
    lemma_unclosed_record_is_rejected(p);
}

/// An empty file holds no record.
pub proof fn lemma_parse_empty()
    ensures
        spec_parse_geometry(Seq::<u8>::empty()) is None,
{
}

/// Decodes a geometry record from the bytes of the state file.  Anything
/// that is not a well-formed geometry object decodes to `None`.
pub fn parse_geometry(s: &Vec<u8>) -> (r: Option<WindowGeometry>)
    ensures
        r == spec_parse_geometry(s@),
{
    let i: usize = scan_ws(s, 0);
    if i < s.len() && s[i] == 0x7b {
        let j: usize = scan_ws(s, i + 1);
        parse_members(s, j, None, None, None, None, 5)
    } else {
        None
    }
}

} // verus!
