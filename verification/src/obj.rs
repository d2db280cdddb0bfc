//! The line-oriented geometry text format.
//!
//! A file is a sequence of records, one per line: `v x y z` declares a
//! vertex position, `vt u v` a surface coordinate, and `f a b c ...` a
//! face of 1-based vertex references, each optionally `position/texcoord`,
//! with negative references counting back from the end of the buffer
//! declared so far. Faces with more than three corners are fan-triangulated
//! around their first corner. Numbers are plain decimals, read into fixed
//! point; a malformed record fails the parse fast, naming its line.
use vstd::prelude::*;

use crate::fx::{sat64, tdiv, FX_ONE};
use crate::math::Vec3f;
use crate::shapes::{GeomError, Shape};

verus! {

/// A fault in the geometry text, naming the offending line.
#[derive(Clone, Copy, PartialEq, Eq, Structural, Debug)]
pub enum ObjError {
    /// A numeric field of the record did not parse as a plain decimal.
    BadNumber { line: usize },
    /// The record has too few fields, or a face has no corners.
    MissingFields { line: usize },
    /// A face reference resolves outside the buffer declared so far.
    BadIndex { line: usize },
    /// The records parsed, but the mesh they describe is inconsistent.
    Geometry { fault: GeomError },
}

/// Whether the byte is a blank separator inside a record.
pub open spec fn is_space_s(b: u8) -> bool {
    b == 32 || b == 9 || b == 13
}

/// Whether the byte is a decimal digit.
pub open spec fn is_digit_s(b: u8) -> bool {
    48 <= b <= 57
}

/// Whether every byte is a decimal digit.
pub open spec fn all_digits_s(s: Seq<u8>) -> bool {
    forall|i: int| 0 <= i < s.len() ==> is_digit_s(#[trigger] s[i])
}

/// The value of a digit string, most significant first.
pub open spec fn digits_val_s(s: Seq<u8>) -> int
    decreases s.len(),
{
    if s.len() == 0 {
        0
    } else {
        digits_val_s(s.drop_last()) * 10 + (s.last() - 48)
    }
}

/// Ten to the `n`-th power.
pub open spec fn pow10_s(n: int) -> int
    decreases n,
{
    if n <= 0 {
        1
    } else {
        10 * pow10_s(n - 1)
    }
}

/// The length of the maximal non-blank prefix.
pub open spec fn token_len_s(s: Seq<u8>) -> nat
    decreases s.len(),
{
    if s.len() == 0 || is_space_s(s[0]) {
        0
    } else {
        1 + token_len_s(s.skip(1))
    }
}

/// The maximal non-blank prefix is never longer than the record.
pub proof fn lemma_token_len(s: Seq<u8>)
    ensures
        token_len_s(s) <= s.len(),
    decreases s.len(),
{
    if s.len() > 0 && !is_space_s(s[0]) {
        lemma_token_len(s.skip(1));
    }
}

/// The blank-separated tokens of a record, in order.
pub open spec fn tokens_s(s: Seq<u8>) -> Seq<Seq<u8>>
    decreases s.len(),
    via tokens_s_dec
{
    if s.len() == 0 {
        Seq::empty()
    } else if is_space_s(s[0]) {
        tokens_s(s.skip(1))
    } else {
        seq![s.take(token_len_s(s) as int)] + tokens_s(s.skip(token_len_s(s) as int))
    }
}

#[via_fn]
proof fn tokens_s_dec(s: Seq<u8>) {
    if s.len() != 0 && !is_space_s(s[0]) {
        lemma_token_len(s);
    }
}

/// The position of the first occurrence of `b`, or the length.
pub open spec fn find_byte_s(s: Seq<u8>, b: u8) -> int
    decreases s.len(),
{
    if s.len() == 0 {
        0
    } else if s[0] == b {
        0
    } else {
        1 + find_byte_s(s.skip(1), b)
    }
}

/// The sign and magnitude digits of a token: one optional leading `+` or
/// `-`, the rest unchanged.
pub open spec fn strip_sign_s(t: Seq<u8>) -> (bool, Seq<u8>) {
    if t.len() > 0 && t[0] == 45 {
        (true, t.skip(1))
    } else if t.len() > 0 && t[0] == 43 {
        (false, t.skip(1))
    } else {
        (false, t)
    }
}

/// The fixed-point value of a decimal token: an optional sign, up to 18
/// integer digits, and optionally a point followed by up to 18 fraction
/// digits, with at least one digit in all; anything else does not parse.
pub open spec fn fx_token_s(t: Seq<u8>) -> Option<i64> {
    let (neg, s) = strip_sign_s(t);
    let d = find_byte_s(s, 46);
    let ip = s.take(d);
    let fp = if d < s.len() {
        s.skip(d + 1)
    } else {
        Seq::empty()
    };
    if !all_digits_s(ip) || !all_digits_s(fp) || ip.len() + fp.len() == 0 || ip.len() > 18
        || fp.len() > 18 {
        None
    } else {
        let mag = digits_val_s(ip) * (FX_ONE as int) + tdiv(
            digits_val_s(fp) * (FX_ONE as int),
            pow10_s(fp.len() as int),
        );
        if neg {
            Some(sat64(-mag) as i64)
        } else {
            Some(sat64(mag) as i64)
        }
    }
}

/// The value of a signed integer token: an optional sign and one to 18
/// digits.
pub open spec fn int_token_s(t: Seq<u8>) -> Option<i64> {
    let (neg, s) = strip_sign_s(t);
    if s.len() == 0 || s.len() > 18 || !all_digits_s(s) {
        None
    } else if neg {
        Some((-digits_val_s(s)) as i64)
    } else {
        Some(digits_val_s(s) as i64)
    }
}

/// A face reference resolved against a buffer of `n` entries: a positive
/// reference is 1-based, a negative one counts back from the end, and zero
/// or a reference before the start resolves to nothing.
pub open spec fn resolve_index_s(val: int, n: int) -> Option<int> {
    if val >= 1 && val - 1 <= usize::MAX {
        Some(val - 1)
    } else if val <= -1 && n + val >= 0 {
        Some(n + val)
    } else {
        None
    }
}

/// The values of a token list where every token is a decimal.
pub open spec fn parse_all_fx_s(ts: Seq<Seq<u8>>) -> Option<Seq<i64>>
    decreases ts.len(),
{
    if ts.len() == 0 {
        Some(Seq::empty())
    } else {
        match parse_all_fx_s(ts.drop_last()) {
            Some(vs) => match fx_token_s(ts.last()) {
                Some(v) => Some(vs.push(v)),
                None => None,
            },
            None => None,
        }
    }
}

/// Everything a partial parse has accumulated: the vertex positions, the
/// surface-coordinate pool, the per-vertex surface coordinates gathered
/// from faces, and the triangles.
pub struct ObjSt {
    pub positions: Seq<Vec3f>,
    pub tex_vecs: Seq<(i64, i64)>,
    pub texcoords: Seq<(i64, i64)>,
    pub triangles: Seq<(usize, usize, usize)>,
}

/// The empty accumulation.
pub open spec fn obj_empty_s() -> ObjSt {
    ObjSt {
        positions: Seq::empty(),
        tex_vecs: Seq::empty(),
        texcoords: Seq::empty(),
        triangles: Seq::empty(),
    }
}

/// One face corner token after the other: the position part before any
/// slash is resolved against the positions declared so far, and a texcoord
/// part after the slash is resolved against the surface-coordinate pool
/// and must land inside it.
pub open spec fn face_fold_s(
    plen: int,
    texv: Seq<(i64, i64)>,
    ts: Seq<Seq<u8>>,
    i: int,
    tri: Seq<usize>,
    tex_acc: Seq<(i64, i64)>,
    lineno: usize,
) -> Result<(Seq<usize>, Seq<(i64, i64)>), ObjError>
    decreases ts.len() - i,
{
    if i < 0 || i >= ts.len() {
        Ok((tri, tex_acc))
    } else {
        let t = ts[i];
        let sl = find_byte_s(t, 47);
        let p1 = t.take(sl);
        match int_token_s(p1) {
            None => Err(ObjError::BadNumber { line: lineno }),
            Some(v1) => match resolve_index_s(v1 as int, plen) {
                None => Err(ObjError::BadIndex { line: lineno }),
                Some(idx) => {
                    if sl < t.len() {
                        let rest = t.skip(sl + 1);
                        let p2 = rest.take(find_byte_s(rest, 47));
                        match int_token_s(p2) {
                            None => Err(ObjError::BadNumber { line: lineno }),
                            Some(v2) => match resolve_index_s(v2 as int, texv.len() as int) {
                                Some(idx2) => {
                                    if idx2 < texv.len() {
                                        face_fold_s(
                                            plen,
                                            texv,
                                            ts,
                                            i + 1,
                                            tri.push(idx as usize),
                                            tex_acc.push(texv[idx2]),
                                            lineno,
                                        )
                                    } else {
                                        Err(ObjError::BadIndex { line: lineno })
                                    }
                                },
                                None => Err(ObjError::BadIndex { line: lineno }),
                            },
                        }
                    } else {
                        face_fold_s(plen, texv, ts, i + 1, tri.push(idx as usize), tex_acc, lineno)
                    }
                },
            },
        }
    }
}

/// The fan triangulation of a face: every corner from the second on is
/// paired with its successor and the first corner.
pub open spec fn fan_s(tri: Seq<usize>, j: int) -> Seq<(usize, usize, usize)>
    decreases tri.len() - j,
{
    if j < 1 || j + 1 >= tri.len() {
        Seq::empty()
    } else {
        seq![(tri[0], tri[j], tri[j + 1])] + fan_s(tri, j + 1)
    }
}

/// The effect of one record on the accumulation. Lines that declare
/// nothing recognizable pass through unchanged.
pub open spec fn obj_line_s(st: ObjSt, line: Seq<u8>, lineno: usize) -> Result<ObjSt, ObjError> {
    if line.len() >= 2 && line[0] == 118 && line[1] == 32 {
        match parse_all_fx_s(tokens_s(line.skip(2))) {
            None => Err(ObjError::BadNumber { line: lineno }),
            Some(vs) => {
                if vs.len() < 3 {
                    Err(ObjError::MissingFields { line: lineno })
                } else {
                    Ok(
                        ObjSt {
                            positions: st.positions.push(
                                Vec3f { x: vs[0], y: vs[1], z: vs[2] },
                            ),
                            ..st
                        },
                    )
                }
            },
        }
    } else if line.len() >= 3 && line[0] == 118 && line[1] == 116 && line[2] == 32 {
        match parse_all_fx_s(tokens_s(line.skip(3))) {
            None => Err(ObjError::BadNumber { line: lineno }),
            Some(vs) => {
                if vs.len() < 2 {
                    Err(ObjError::MissingFields { line: lineno })
                } else {
                    Ok(ObjSt { tex_vecs: st.tex_vecs.push((vs[0], vs[1])), ..st })
                }
            },
        }
    } else if line.len() >= 2 && line[0] == 102 && line[1] == 32 {
        match face_fold_s(
            st.positions.len() as int,
            st.tex_vecs,
            tokens_s(line.skip(1)),
            0,
            Seq::empty(),
            Seq::empty(),
            lineno,
        ) {
            Err(e) => Err(e),
            Ok((tri, tex_acc)) => {
                if tri.len() == 0 {
                    Err(ObjError::MissingFields { line: lineno })
                } else {
                    Ok(
                        ObjSt {
                            triangles: st.triangles + fan_s(tri, 1),
                            texcoords: st.texcoords + tex_acc,
                            ..st
                        },
                    )
                }
            },
        }
    } else {
        Ok(st)
    }
}

/// The accumulation over the records from line `i` on.
pub open spec fn obj_lines_s(st: ObjSt, lines: Seq<Seq<u8>>, i: int) -> Result<ObjSt, ObjError>
    decreases lines.len() - i,
{
    if i < 0 || i >= lines.len() {
        Ok(st)
    } else {
        match obj_line_s(st, lines[i], i as usize) {
            Ok(st2) => obj_lines_s(st2, lines, i + 1),
            Err(e) => Err(e),
        }
    }
}

/// The views of a list of byte lines.
pub open spec fn line_views_s(lines: Seq<Vec<u8>>) -> Seq<Seq<u8>> {
    Seq::new(lines.len(), |i: int| lines[i]@)
}

} // verus!

verus! {

/// The views of a list of byte tokens.
pub open spec fn token_views_s(ts: Seq<Vec<u8>>) -> Seq<Seq<u8>> {
    Seq::new(ts.len(), |i: int| ts[i]@)
}

/// Copies the bytes of `t` from `a` up to `b`.
fn subrange_vec(t: &Vec<u8>, a: usize, b: usize) -> (r: Vec<u8>)
    requires
        a <= b <= t@.len(),
    ensures
        r@ == t@.subrange(a as int, b as int),
{
    let mut r: Vec<u8> = Vec::with_capacity(b - a);
    let mut k: usize = a;
    while k < b
        invariant
            a <= k <= b <= t@.len(),
            r@ == t@.subrange(a as int, k as int),
        decreases b - k,
    {
        r.push(t[k]);
        proof {
            assert(r@ =~= t@.subrange(a as int, k as int + 1));
        }
        k = k + 1;
    }
    r
}

/// Whether the byte is a blank separator.
fn is_space(b: u8) -> (r: bool)
    ensures
        r == is_space_s(b),
{
    b == 32 || b == 9 || b == 13
}

/// Splits a record into its blank-separated tokens.
fn tokenize(line: &Vec<u8>) -> (toks: Vec<Vec<u8>>)
    ensures
        token_views_s(toks@) == tokens_s(line@),
{
    let n = line.len();
    let mut toks: Vec<Vec<u8>> = Vec::new();
    proof {
        assert(token_views_s(toks@) =~= Seq::<Seq<u8>>::empty());
        assert(line@.skip(0) =~= line@);
        assert(tokens_s(line@) =~= Seq::<Seq<u8>>::empty() + tokens_s(line@));
    }
    let mut i: usize = 0;
    while i < n
        invariant
            0 <= i <= n,
            n == line@.len(),
            tokens_s(line@) == token_views_s(toks@) + tokens_s(line@.skip(i as int)),
        decreases n - i,
    {
        if is_space(line[i]) {
            proof {
                assert(line@.skip(i as int).skip(1) =~= line@.skip(i as int + 1));
            }
            i = i + 1;
        } else {
            let start = i;
            let mut j = i;
            while j < n && !(line[j] == 32 || line[j] == 9 || line[j] == 13)
                invariant
                    start <= j <= n,
                    n == line@.len(),
                    token_len_s(line@.skip(start as int)) == (j - start) + token_len_s(
                        line@.skip(j as int),
                    ),
                decreases n - j,
            {
                proof {
                    assert(line@.skip(j as int).skip(1) =~= line@.skip(j as int + 1));
                }
                j = j + 1;
            }
            assert(token_len_s(line@.skip(start as int)) == j - start);
            let tok = subrange_vec(line, start, j);
            proof {
                let s = line@.skip(start as int);
                assert(tok@ =~= s.take(token_len_s(s) as int));
                assert(s.skip(token_len_s(s) as int) =~= line@.skip(j as int));
                assert(tokens_s(s) == seq![s.take(token_len_s(s) as int)] + tokens_s(
                    s.skip(token_len_s(s) as int),
                ));
            }
            let ghost old_toks = toks@;
            toks.push(tok);
            proof {
                assert(token_views_s(toks@) =~= token_views_s(old_toks) + seq![tok@]);
                assert(token_views_s(old_toks) + tokens_s(line@.skip(start as int))
                    =~= token_views_s(toks@) + tokens_s(line@.skip(j as int)));
            }
            i = j;
        }
    }
    assert(line@.skip(i as int) =~= Seq::<u8>::empty());
    assert(token_views_s(toks@) =~= token_views_s(toks@) + tokens_s(line@.skip(i as int)));
    toks
}

/// The value of every digit string is bounded by ten to its length.
proof fn lemma_digits_bound(s: Seq<u8>)
    requires
        all_digits_s(s),
    ensures
        0 <= digits_val_s(s) < pow10_s(s.len() as int),
    decreases s.len(),
{
    if s.len() > 0 {
        assert(all_digits_s(s.drop_last()));
        lemma_digits_bound(s.drop_last());
    }
}

/// Reads a digit run `t[a..b]` as a number; fails on a non-digit or on
/// more than 18 digits.
fn digits_val(t: &Vec<u8>, a: usize, b: usize) -> (r: Option<u64>)
    requires
        a <= b <= t@.len(),
    ensures
        match r {
            Some(v) => all_digits_s(t@.subrange(a as int, b as int)) && b - a <= 18 && v as int
                == digits_val_s(t@.subrange(a as int, b as int)) && v
                <= 1000000000000000000u64,
            None => !all_digits_s(t@.subrange(a as int, b as int)) || b - a > 18,
        },
{
    if b - a > 18 {
        return None;
    }
    proof {
        assert(pow10_s(18) == 1000000000000000000) by {
            reveal_with_fuel(pow10_s, 19);
        }
    }
    let ghost s = t@.subrange(a as int, b as int);
    let mut val: u64 = 0;
    let mut k: usize = a;
    while k < b
        invariant
            a <= k <= b <= t@.len(),
            b - a <= 18,
            s == t@.subrange(a as int, b as int),
            all_digits_s(t@.subrange(a as int, k as int)),
            val as int == digits_val_s(t@.subrange(a as int, k as int)),
            (val as int) < pow10_s(k as int - a as int),
            pow10_s(k as int - a as int) <= pow10_s(18),
            pow10_s(18) == 1000000000000000000,
        decreases b - k,
    {
        let bch = t[k];
        if !(48 <= bch && bch <= 57) {
            proof {
                assert(s[k as int - a as int] == bch);
            }
            return None;
        }
        proof {
            let pre = t@.subrange(a as int, k as int);
            let nxt = t@.subrange(a as int, k as int + 1);
            assert(nxt.drop_last() =~= pre);
            assert(nxt.last() == bch);
            lemma_digits_bound(nxt);
            lemma_pow10_le(k as int + 1 - a as int, 18);
        }
        val = val * 10 + ((bch - 48) as u64);
        k = k + 1;
    }
    assert(t@.subrange(a as int, k as int) =~= s);
    proof {
        lemma_digits_bound(s);
        lemma_pow10_le(s.len() as int, 18);
    }
    Some(val)
}

/// Powers of ten are monotone in the exponent.
proof fn lemma_pow10_le(a: int, b: int)
    requires
        a <= b,
    ensures
        pow10_s(a) <= pow10_s(b),
    decreases
        if b > 0 { b } else { 0 },
{
    if b > 0 && a < b {
        lemma_pow10_le(a, b - 1);
        lemma_pow10_pos(b - 1);
    }
}

/// Powers of ten are positive.
proof fn lemma_pow10_pos(i: int)
    ensures
        pow10_s(i) >= 1,
    decreases
        if i > 0 { i } else { 0 },
{
    if i > 0 {
        lemma_pow10_pos(i - 1);
    }
}

/// Reads a token `t[a..b]` as a fixed-point decimal, exactly
/// `fx_token_s`.
fn parse_fx(t: &Vec<u8>, a: usize, b: usize) -> (r: Option<i64>)
    requires
        a <= b <= t@.len(),
    ensures
        r == fx_token_s(t@.subrange(a as int, b as int)),
{
    let ghost tok = t@.subrange(a as int, b as int);
    let mut pos = a;
    let mut neg = false;
    if b > a && (t[a] == 45 || t[a] == 43) {
        neg = t[a] == 45;
        pos = a + 1;
    }
    let ghost s = strip_sign_s(tok).1;
    proof {
        assert(s =~= t@.subrange(pos as int, b as int));
        assert(strip_sign_s(tok).0 == neg);
    }
    let dot = find_byte_in_range(t, pos, b, 46);
    proof {
        assert(t@.subrange(pos as int, b as int).skip(dot as int - pos as int) =~= t@.subrange(
            dot as int,
            b as int,
        ));
    }
    let ip_val = digits_val(t, pos, dot);
    match ip_val {
        None => {
            proof {
                let d = find_byte_s(s, 46);
                assert(d == dot as int - pos as int);
                assert(s.take(d) =~= t@.subrange(pos as int, dot as int));
                assert(!all_digits_s(s.take(d)) || s.take(d).len() > 18);
                assert(fx_token_s(tok) is None);
            }
            None
        },
        Some(iv) => {
            let (fp_ok, fv, flen): (bool, u64, usize) = if dot < b {
                match digits_val(t, dot + 1, b) {
                    None => (false, 0, 0),
                    Some(v) => (true, v, b - (dot + 1)),
                }
            } else {
                (true, 0, 0)
            };
            proof {
                if dot < b {
                    assert(s.skip(find_byte_s(s, 46) + 1) =~= t@.subrange(dot as int + 1, b as int));
                } else {
                    assert(s.take(find_byte_s(s, 46)) =~= s);
                }
                assert(s.take(find_byte_s(s, 46)) =~= t@.subrange(pos as int, dot as int));
            }
            if !fp_ok {
                return None;
            }
            if dot == pos && (dot >= b || dot + 1 == b) {
                return None;
            }
            if dot == pos && flen == 0 {
                return None;
            }
            let mut p10: u64 = 1;
            let mut e: usize = 0;
            while e < flen
                invariant
                    0 <= e <= flen <= 18,
                    p10 as int == pow10_s(e as int),
                    p10 <= 1000000000000000000u64,
                decreases flen - e,
            {
                proof {
                    lemma_pow10_le(e as int + 1, 18);
                    assert(pow10_s(18) == 1000000000000000000) by {
                        reveal_with_fuel(pow10_s, 19);
                    }
                }
                p10 = p10 * 10;
                e = e + 1;
            }
            proof {
                lemma_pow10_pos(flen as int);
                vstd::arithmetic::div_mod::lemma_div_pos_is_pos(fv as int * 65536, p10 as int);
                vstd::arithmetic::div_mod::lemma_div_is_ordered_by_denominator(
                    fv as int * 65536,
                    1,
                    p10 as int,
                );
            }
            let mag: i128 = (iv as i128) * 65536 + ((fv as i128) * 65536) / (p10 as i128);
            let r = if neg {
                crate::fx::sat_i128(-mag)
            } else {
                crate::fx::sat_i128(mag)
            };
            Some(r)
        },
    }
}

/// Finds the first occurrence of `b` in `t[from..to]`, as an absolute
/// position, or `to` when absent.
fn find_byte_in_range(t: &Vec<u8>, from: usize, to: usize, b: u8) -> (r: usize)
    requires
        from <= to <= t@.len(),
    ensures
        from <= r <= to,
        r as int - from as int == find_byte_s(t@.subrange(from as int, to as int), b),
        r < to ==> t@[r as int] == b,
{
    let mut k = from;
    while k < to && t[k] != b
        invariant
            from <= k <= to,
            to <= t@.len(),
            find_byte_s(t@.subrange(from as int, to as int), b) == (k - from) + find_byte_s(
                t@.subrange(k as int, to as int),
                b,
            ),
        decreases to - k,
    {
        proof {
            assert(t@.subrange(k as int, to as int).skip(1) =~= t@.subrange(k as int + 1, to as int));
        }
        k = k + 1;
    }
    proof {
        if k < to {
            assert(t@.subrange(k as int, to as int)[0] == t@[k as int]);
        } else {
            assert(t@.subrange(k as int, to as int) =~= Seq::<u8>::empty());
        }
    }
    k
}

/// Reads a token `t[a..b]` as a signed integer, exactly `int_token_s`.
fn parse_int(t: &Vec<u8>, a: usize, b: usize) -> (r: Option<i64>)
    requires
        a <= b <= t@.len(),
    ensures
        r == int_token_s(t@.subrange(a as int, b as int)),
{
    let ghost tok = t@.subrange(a as int, b as int);
    let mut pos = a;
    let mut neg = false;
    if b > a && (t[a] == 45 || t[a] == 43) {
        neg = t[a] == 45;
        pos = a + 1;
    }
    proof {
        assert(strip_sign_s(tok).1 =~= t@.subrange(pos as int, b as int));
        assert(strip_sign_s(tok).0 == neg);
    }
    if pos == b {
        return None;
    }
    match digits_val(t, pos, b) {
        None => None,
        Some(v) => {
            if neg {
                Some(-(v as i64))
            } else {
                Some(v as i64)
            }
        },
    }
}

} // verus!

verus! {

/// Resolves a face reference against a buffer of `n` entries, exactly
/// `resolve_index_s`.
fn resolve_index(val: i64, n: usize) -> (r: Option<usize>)
    ensures
        match resolve_index_s(val as int, n as int) {
            Some(v) => r matches Some(u) && u as int == v,
            None => r is None,
        },
{
    if val >= 1 {
        let vm: u64 = (val - 1) as u64;
        if (vm as u128) <= (usize::MAX as u128) {
            Some(vm as usize)
        } else {
            None
        }
    } else if val <= -1 {
        let s: i128 = n as i128 + val as i128;
        if s >= 0 {
            Some(s as usize)
        } else {
            None
        }
    } else {
        None
    }
}

/// Reads every token as a fixed-point decimal, exactly `parse_all_fx_s`.
fn parse_all_fx(toks: &Vec<Vec<u8>>) -> (r: Option<Vec<i64>>)
    ensures
        match parse_all_fx_s(token_views_s(toks@)) {
            Some(vs) => r matches Some(v) && v@ == vs,
            None => r is None,
        },
{
    let n = toks.len();
    let mut vals: Vec<i64> = Vec::new();
    proof {
        assert(token_views_s(toks@).take(0) =~= Seq::<Seq<u8>>::empty());
    }
    let mut i: usize = 0;
    while i < n
        invariant
            0 <= i <= n,
            n == toks@.len(),
            parse_all_fx_s(token_views_s(toks@).take(i as int)) == Some(vals@),
        decreases n - i,
    {
        let tok = &toks[i];
        proof {
            assert(tok@.subrange(0, tok@.len() as int) =~= tok@);
        }
        let v = parse_fx(tok, 0, tok.len());
        proof {
            let tv = token_views_s(toks@);
            assert(tv.take(i as int + 1).drop_last() =~= tv.take(i as int));
            assert(tv.take(i as int + 1).last() == tok@);
        }
        match v {
            None => {
                proof {
                    lemma_parse_all_none(token_views_s(toks@), i as int);
                }
                return None;
            },
            Some(x) => {
                vals.push(x);
            },
        }
        i = i + 1;
    }
    proof {
        assert(token_views_s(toks@).take(n as int) =~= token_views_s(toks@));
    }
    Some(vals)
}

/// A token list with one bad token parses to nothing, however long.
proof fn lemma_parse_all_none(ts: Seq<Seq<u8>>, i: int)
    requires
        0 <= i < ts.len(),
        fx_token_s(ts[i]) is None,
    ensures
        parse_all_fx_s(ts.take(ts.len() as int)) is None,
        parse_all_fx_s(ts) is None,
    decreases ts.len(),
{
    assert(ts.take(ts.len() as int) =~= ts);
    if ts.len() > 0 {
        if i == ts.len() - 1 {
            assert(ts.last() == ts[i]);
        } else {
            assert(ts.drop_last()[i] == ts[i]);
            lemma_parse_all_none(ts.drop_last(), i);
        }
    }
}

/// Parses a whole geometry file, given as its lines of bytes, into a mesh:
/// the records are folded in order, and the accumulated positions,
/// triangles and surface coordinates are assembled with derived normals.
/// The parse succeeds exactly when every record is well formed, every
/// triangle reference lands inside the vertex buffer, and the faces
/// declare either no surface coordinates at all or exactly one per vertex.
#[verifier::rlimit(100)]
pub fn parse_obj(lines: &Vec<Vec<u8>>) -> (r: Result<Shape, ObjError>)
    ensures
        obj_lines_s(obj_empty_s(), line_views_s(lines@), 0) matches Err(e) ==> r == Err::<
            Shape,
            ObjError,
        >(e),
        obj_lines_s(obj_empty_s(), line_views_s(lines@), 0) matches Ok(st) ==> {
            let ok_mesh = crate::shapes::tris_ok(st.triangles, st.positions.len() as int) && (
            st.texcoords.len() == 0 || st.texcoords.len() == st.positions.len());
            match r {
                Ok(s) => {
                    &&& ok_mesh
                    &&& s.wf()
                    &&& s.tris_s() == st.triangles
                    &&& s.vertices_s().len() == st.positions.len()
                    &&& forall|k: int|
                        0 <= k < st.positions.len() ==> #[trigger] s.vertices_s()[k]
                            == (crate::vertex::Vertex {
                            position: st.positions[k],
                            normal: Some(
                                crate::math::vec3_of(
                                    crate::shapes::gen_normals_s(st.positions, st.triangles)[k],
                                ),
                            ),
                            texcoord: if st.texcoords.len() == 0 {
                                None
                            } else {
                                Some(st.texcoords[k])
                            },
                        })
                },
                Err(ObjError::Geometry { fault }) => !ok_mesh && {
                    if st.texcoords.len() != 0 && st.texcoords.len() != st.positions.len() {
                        fault == (crate::shapes::GeomError::TexcoordsLength {
                            expected: st.positions.len() as usize,
                            got: st.texcoords.len() as usize,
                        })
                    } else {
                        crate::shapes::first_tri_defect_err_s(
                            st.triangles,
                            st.positions.len() as int,
                            fault,
                        )
                    }
                },
                Err(_) => false,
            }
        },
{
    let ghost lv = line_views_s(lines@);
    let ghost full = obj_lines_s(obj_empty_s(), lv, 0);
    let mut positions: Vec<Vec3f> = Vec::new();
    let mut tex_vecs: Vec<(i64, i64)> = Vec::new();
    let mut texcoords: Vec<(i64, i64)> = Vec::new();
    let mut triangles: Vec<(usize, usize, usize)> = Vec::new();
    proof {
        assert(obj_empty_s() =~= (ObjSt {
            positions: positions@,
            tex_vecs: tex_vecs@,
            texcoords: texcoords@,
            triangles: triangles@,
        }));
    }
    let nl = lines.len();
    let mut li: usize = 0;
    while li < nl
        invariant
            0 <= li <= nl,
            nl == lines@.len(),
            lv == line_views_s(lines@),
            full == obj_lines_s(obj_empty_s(), lv, 0),
            obj_lines_s(
                ObjSt {
                    positions: positions@,
                    tex_vecs: tex_vecs@,
                    texcoords: texcoords@,
                    triangles: triangles@,
                },
                lv,
                li as int,
            ) == full,
        decreases nl - li,
    {
        let ghost st0 = ObjSt {
            positions: positions@,
            tex_vecs: tex_vecs@,
            texcoords: texcoords@,
            triangles: triangles@,
        };
        let line = &lines[li];
        proof {
            assert(lv[li as int] == line@);
        }
        let ln = line.len();
        if ln >= 2 && line[0] == 118 && line[1] == 32 {
            let rest = subrange_vec(line, 2, ln);
            proof {
                assert(rest@ =~= line@.skip(2));
            }
            let toks = tokenize(&rest);
            match parse_all_fx(&toks) {
                None => {
                    assert(obj_line_s(st0, line@, li) == Err::<ObjSt, ObjError>(
                        ObjError::BadNumber { line: li },
                    ));
                    return Err(ObjError::BadNumber { line: li });
                },
                Some(vals) => {
                    if vals.len() < 3 {
                        assert(obj_line_s(st0, line@, li) == Err::<ObjSt, ObjError>(
                            ObjError::MissingFields { line: li },
                        ));
                        return Err(ObjError::MissingFields { line: li });
                    }
                    positions.push(Vec3f { x: vals[0], y: vals[1], z: vals[2] });
                    proof {
                        assert(obj_line_s(st0, line@, li) == Ok::<ObjSt, ObjError>(ObjSt {
                            positions: positions@,
                            tex_vecs: tex_vecs@,
                            texcoords: texcoords@,
                            triangles: triangles@,
                        }));
                    }
                },
            }
        } else if ln >= 3 && line[0] == 118 && line[1] == 116 && line[2] == 32 {
            let rest = subrange_vec(line, 3, ln);
            proof {
                assert(rest@ =~= line@.skip(3));
            }
            let toks = tokenize(&rest);
            match parse_all_fx(&toks) {
                None => {
                    assert(obj_line_s(st0, line@, li) == Err::<ObjSt, ObjError>(
                        ObjError::BadNumber { line: li },
                    ));
                    return Err(ObjError::BadNumber { line: li });
                },
                Some(vals) => {
                    if vals.len() < 2 {
                        assert(obj_line_s(st0, line@, li) == Err::<ObjSt, ObjError>(
                            ObjError::MissingFields { line: li },
                        ));
                        return Err(ObjError::MissingFields { line: li });
                    }
                    tex_vecs.push((vals[0], vals[1]));
                    proof {
                        assert(obj_line_s(st0, line@, li) == Ok::<ObjSt, ObjError>(ObjSt {
                            positions: positions@,
                            tex_vecs: tex_vecs@,
                            texcoords: texcoords@,
                            triangles: triangles@,
                        }));
                    }
                },
            }
        } else if ln >= 2 && line[0] == 102 && line[1] == 32 {
            match face_line(line, positions.len(), &tex_vecs, li) {
                Err(e) => {
                    assert(obj_line_s(st0, line@, li) == Err::<ObjSt, ObjError>(e));
                    return Err(e);
                },
                Ok((mut fan_tris, mut tex_acc)) => {
                    triangles.append(&mut fan_tris);
                    texcoords.append(&mut tex_acc);
                    proof {
                        assert(obj_line_s(st0, line@, li) == Ok::<ObjSt, ObjError>(ObjSt {
                            positions: positions@,
                            tex_vecs: tex_vecs@,
                            texcoords: texcoords@,
                            triangles: triangles@,
                        }));
                    }
                },
            }
        } else {
            proof {
                assert(obj_line_s(st0, line@, li) == Ok::<ObjSt, ObjError>(st0));
            }
        }
        li = li + 1;
    }
    let ghost st = ObjSt {
        positions: positions@,
        tex_vecs: tex_vecs@,
        texcoords: texcoords@,
        triangles: triangles@,
    };
    assert(full == Ok::<ObjSt, ObjError>(st));
    if texcoords.len() == 0 {
        match Shape::with_tris(positions, triangles) {
            Ok(s) => Ok(s),
            Err(g) => Err(ObjError::Geometry { fault: g }),
        }
    } else {
        match Shape::with_texcoords(positions, triangles, texcoords) {
            Ok(s) => Ok(s),
            Err(g) => Err(ObjError::Geometry { fault: g }),
        }
    }
}

} // verus!

verus! {

/// Processes one face record: resolves every corner reference, gathers
/// the referenced surface coordinates, and fan-triangulates the corners
/// around the first one.
#[verifier::rlimit(100)]
fn face_line(line: &Vec<u8>, plen: usize, tex_vecs: &Vec<(i64, i64)>, li: usize) -> (r: Result<
    (Vec<(usize, usize, usize)>, Vec<(i64, i64)>),
    ObjError,
>)
    requires
        line@.len() >= 1,
    ensures
        match face_fold_s(
            plen as int,
            tex_vecs@,
            tokens_s(line@.skip(1)),
            0,
            Seq::empty(),
            Seq::empty(),
            li,
        ) {
            Err(e) => r matches Err(e2) && e2 == e,
            Ok((tri, acc)) => {
                if tri.len() == 0 {
                    r matches Err(e2) && e2 == (ObjError::MissingFields { line: li })
                } else {
                    r matches Ok((ft, ta)) && ft@ == fan_s(tri, 1) && ta@ == acc
                }
            },
        },
{
    let ln = line.len();
    let rest = subrange_vec(line, 1, ln);
    proof {
        assert(rest@ =~= line@.skip(1));
    }
    let toks = tokenize(&rest);
    let ghost tviews = token_views_s(toks@);
    let ghost ff = face_fold_s(plen as int, tex_vecs@, tviews, 0, Seq::empty(), Seq::empty(), li);
    let mut tri: Vec<usize> = Vec::new();
    let mut tex_acc: Vec<(i64, i64)> = Vec::new();
    let nt = toks.len();
    let mut ci: usize = 0;
    while ci < nt
        invariant
            0 <= ci <= nt,
            nt == toks@.len(),
            tviews == token_views_s(toks@),
            tviews == tokens_s(line@.skip(1)),
            ff == face_fold_s(plen as int, tex_vecs@, tviews, 0, Seq::empty(), Seq::empty(), li),
            face_fold_s(plen as int, tex_vecs@, tviews, ci as int, tri@, tex_acc@, li) == ff,
        decreases nt - ci,
    {
        let tok = &toks[ci];
        let tl = tok.len();
        proof {
            assert(tviews[ci as int] == tok@);
            assert(tok@.subrange(0, tl as int) =~= tok@);
        }
        let sl = find_byte_in_range(tok, 0, tl, 47);
        let v1 = parse_int(tok, 0, sl);
        proof {
            assert(tok@.take(find_byte_s(tok@, 47)) =~= tok@.subrange(0, sl as int));
        }
        match v1 {
            None => {
                proof {
                    let t = tviews[ci as int];
                    assert(find_byte_s(t, 47) == sl as int);
                    assert(int_token_s(t.take(find_byte_s(t, 47))) is None);
                    assert(face_fold_s(plen as int, tex_vecs@, tviews, ci as int, tri@, tex_acc@,
                        li) == Err::<(Seq<usize>, Seq<(i64, i64)>), ObjError>(
                        ObjError::BadNumber { line: li },
                    ));
                    assert(tviews == tokens_s(line@.skip(1)));
                    assert(ff == Err::<(Seq<usize>, Seq<(i64, i64)>), ObjError>(
                        ObjError::BadNumber { line: li },
                    ));
                }
                return Err(ObjError::BadNumber { line: li });
            },
            Some(v1) => {
                match resolve_index(v1, plen) {
                    None => {
                proof {
                    assert(face_fold_s(plen as int, tex_vecs@, tviews, ci as int, tri@, tex_acc@,
                        li) == Err::<(Seq<usize>, Seq<(i64, i64)>), ObjError>(
                        ObjError::BadIndex { line: li },
                    ));
                    assert(tviews == tokens_s(line@.skip(1)));
                    assert(ff == Err::<(Seq<usize>, Seq<(i64, i64)>), ObjError>(
                        ObjError::BadIndex { line: li },
                    ));
                }
                        return Err(ObjError::BadIndex { line: li });
                    },
                    Some(idx) => {
                        if sl < tl {
                            let sl2 = find_byte_in_range(tok, sl + 1, tl, 47);
                            let v2 = parse_int(tok, sl + 1, sl2);
                            proof {
                                let rest2 = tok@.skip(sl as int + 1);
                                assert(rest2 =~= tok@.subrange(sl as int + 1, tl as int));
                                assert(rest2.take(find_byte_s(rest2, 47)) =~= tok@.subrange(
                                    sl as int + 1,
                                    sl2 as int,
                                ));
                            }
                            match v2 {
                                None => {
                proof {
                    assert(face_fold_s(plen as int, tex_vecs@, tviews, ci as int, tri@, tex_acc@,
                        li) == Err::<(Seq<usize>, Seq<(i64, i64)>), ObjError>(
                        ObjError::BadNumber { line: li },
                    ));
                    assert(tviews == tokens_s(line@.skip(1)));
                    assert(ff == Err::<(Seq<usize>, Seq<(i64, i64)>), ObjError>(
                        ObjError::BadNumber { line: li },
                    ));
                }
                                    return Err(ObjError::BadNumber { line: li });
                                },
                                Some(v2) => {
                                    match resolve_index(v2, tex_vecs.len()) {
                                        None => {
                proof {
                    assert(face_fold_s(plen as int, tex_vecs@, tviews, ci as int, tri@, tex_acc@,
                        li) == Err::<(Seq<usize>, Seq<(i64, i64)>), ObjError>(
                        ObjError::BadIndex { line: li },
                    ));
                    assert(tviews == tokens_s(line@.skip(1)));
                    assert(ff == Err::<(Seq<usize>, Seq<(i64, i64)>), ObjError>(
                        ObjError::BadIndex { line: li },
                    ));
                }
                                            return Err(ObjError::BadIndex { line: li });
                                        },
                                        Some(idx2) => {
                                            if idx2 < tex_vecs.len() {
                                                tex_acc.push(tex_vecs[idx2]);
                                                tri.push(idx);
                                            } else {
                proof {
                    assert(face_fold_s(plen as int, tex_vecs@, tviews, ci as int, tri@, tex_acc@,
                        li) == Err::<(Seq<usize>, Seq<(i64, i64)>), ObjError>(
                        ObjError::BadIndex { line: li },
                    ));
                    assert(tviews == tokens_s(line@.skip(1)));
                    assert(ff == Err::<(Seq<usize>, Seq<(i64, i64)>), ObjError>(
                        ObjError::BadIndex { line: li },
                    ));
                }
                                                return Err(ObjError::BadIndex { line: li });
                                            }
                                        },
                                    }
                                },
                            }
                        } else {
                            tri.push(idx);
                        }
                    },
                }
            },
        }
        ci = ci + 1;
    }
    assert(ff == Ok::<(Seq<usize>, Seq<(i64, i64)>), ObjError>((tri@, tex_acc@)));
    assert(tviews == tokens_s(line@.skip(1)));
    if tri.len() == 0 {
        return Err(ObjError::MissingFields { line: li });
    }
    let ghost tri_v = tri@;
    let mut fan_tris: Vec<(usize, usize, usize)> = Vec::new();
    let t0 = tri[0];
    let mut j: usize = 1;
    while j + 1 < tri.len()
        invariant
            1 <= j,
            j + 1 <= tri_v.len() || j == 1,
            tri_v == tri@,
            tri_v.len() >= 1,
            t0 == tri_v[0],
            fan_tris@ + fan_s(tri_v, j as int) == fan_s(tri_v, 1),
        decreases tri@.len() - j,
    {
        fan_tris.push((t0, tri[j], tri[j + 1]));
        proof {
            assert(fan_tris@ + fan_s(tri_v, j as int + 1) =~= fan_s(tri_v, 1));
        }
        j = j + 1;
    }
    proof {
        assert(fan_s(tri_v, j as int) =~= Seq::<(usize, usize, usize)>::empty());
        assert(fan_tris@ =~= fan_s(tri_v, 1));
    }
    Ok((fan_tris, tex_acc))
}

} // verus!
