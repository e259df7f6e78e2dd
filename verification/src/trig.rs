//! Fixed-point trigonometry for pad placement.
//!
//! Angles are counts of millionths of a degree; sines and cosines are
//! counts of millionths.  Values come from a table of whole-degree
//! sines, linearly interpolated between entries, extended over the full
//! circle by symmetry, so quadrant angles are exact.

use vstd::prelude::*;

verus! {

use crate::numeric::MAX_ABS_MICROS;

/// Millionths of a degree in a quarter turn.
pub const QUARTER_TURN: i64 = 90_000_000;

/// Millionths of a degree in a full turn.
pub const FULL_TURN: i64 = 360_000_000;

/// The sine of `d` whole degrees, in millionths, for `0 <= d <= 90`.
pub open spec fn sin_table(d: int) -> int {
    if d <= 0 {
        0
    } else if d <= 1 {
        17452
    } else if d <= 2 {
        34899
    } else if d <= 3 {
        52336
    } else if d <= 4 {
        69756
    } else if d <= 5 {
        87156
    } else if d <= 6 {
        104528
    } else if d <= 7 {
        121869
    } else if d <= 8 {
        139173
    } else if d <= 9 {
        156434
    } else if d <= 10 {
        173648
    } else if d <= 11 {
        190809
    } else if d <= 12 {
        207912
    } else if d <= 13 {
        224951
    } else if d <= 14 {
        241922
    } else if d <= 15 {
        258819
    } else if d <= 16 {
        275637
    } else if d <= 17 {
        292372
    } else if d <= 18 {
        309017
    } else if d <= 19 {
        325568
    } else if d <= 20 {
        342020
    } else if d <= 21 {
        358368
    } else if d <= 22 {
        374607
    } else if d <= 23 {
        390731
    } else if d <= 24 {
        406737
    } else if d <= 25 {
        422618
    } else if d <= 26 {
        438371
    } else if d <= 27 {
        453990
    } else if d <= 28 {
        469472
    } else if d <= 29 {
        484810
    } else if d <= 30 {
        500000
    } else if d <= 31 {
        515038
    } else if d <= 32 {
        529919
    } else if d <= 33 {
        544639
    } else if d <= 34 {
        559193
    } else if d <= 35 {
        573576
    } else if d <= 36 {
        587785
    } else if d <= 37 {
        601815
    } else if d <= 38 {
        615661
    } else if d <= 39 {
        629320
    } else if d <= 40 {
        642788
    } else if d <= 41 {
        656059
    } else if d <= 42 {
        669131
    } else if d <= 43 {
        681998
    } else if d <= 44 {
        694658
    } else if d <= 45 {
        707107
    } else if d <= 46 {
        719340
    } else if d <= 47 {
        731354
    } else if d <= 48 {
        743145
    } else if d <= 49 {
        754710
    } else if d <= 50 {
        766044
    } else if d <= 51 {
        777146
    } else if d <= 52 {
        788011
    } else if d <= 53 {
        798636
    } else if d <= 54 {
        809017
    } else if d <= 55 {
        819152
    } else if d <= 56 {
        829038
    } else if d <= 57 {
        838671
    } else if d <= 58 {
        848048
    } else if d <= 59 {
        857167
    } else if d <= 60 {
        866025
    } else if d <= 61 {
        874620
    } else if d <= 62 {
        882948
    } else if d <= 63 {
        891007
    } else if d <= 64 {
        898794
    } else if d <= 65 {
        906308
    } else if d <= 66 {
        913545
    } else if d <= 67 {
        920505
    } else if d <= 68 {
        927184
    } else if d <= 69 {
        933580
    } else if d <= 70 {
        939693
    } else if d <= 71 {
        945519
    } else if d <= 72 {
        951057
    } else if d <= 73 {
        956305
    } else if d <= 74 {
        961262
    } else if d <= 75 {
        965926
    } else if d <= 76 {
        970296
    } else if d <= 77 {
        974370
    } else if d <= 78 {
        978148
    } else if d <= 79 {
        981627
    } else if d <= 80 {
        984808
    } else if d <= 81 {
        987688
    } else if d <= 82 {
        990268
    } else if d <= 83 {
        992546
    } else if d <= 84 {
        994522
    } else if d <= 85 {
        996195
    } else if d <= 86 {
        997564
    } else if d <= 87 {
        998630
    } else if d <= 88 {
        999391
    } else if d <= 89 {
        999848
    } else {
        1000000
    }
}

/// The interpolated sine of `r` millionths of a degree in the first
/// quadrant.
pub open spec fn sin_quarter(r: int) -> int {
    let d = r / 1_000_000;
    let f = r % 1_000_000;
    if d >= 90 {
        1_000_000
    } else {
        sin_table(d) + ((sin_table(d + 1) - sin_table(d)) * f) / 1_000_000
    }
}

/// The sine of any angle in millionths of a degree, in millionths.
pub open spec fn sin_mdeg(a: int) -> int {
    let norm = a % (FULL_TURN as int);
    let q = norm / (QUARTER_TURN as int);
    let r = norm % (QUARTER_TURN as int);
    if q == 0 {
        sin_quarter(r)
    } else if q == 1 {
        sin_quarter(QUARTER_TURN - r)
    } else if q == 2 {
        -sin_quarter(r)
    } else {
        -sin_quarter(QUARTER_TURN - r)
    }
}

/// The cosine of any angle, as the sine a quarter turn later.
pub open spec fn cos_mdeg(a: int) -> int {
    sin_mdeg(a + QUARTER_TURN)
}

/// Truncated-toward-zero division by one million.
pub open spec fn tdiv_million(a: int) -> int {
    if a >= 0 {
        a / 1_000_000
    } else {
        -((-a) / 1_000_000)
    }
}

/// The x coordinate of `(px, py)` rotated counter-clockwise by `deg`.
pub open spec fn rot_x(px: int, py: int, deg: int) -> int {
    tdiv_million(px * cos_mdeg(deg) - py * sin_mdeg(deg))
}

/// The y coordinate of `(px, py)` rotated counter-clockwise by `deg`.
pub open spec fn rot_y(px: int, py: int, deg: int) -> int {
    tdiv_million(px * sin_mdeg(deg) + py * cos_mdeg(deg))
}

/// Table entries grow from 0 to one million.
proof fn lemma_sin_table_bounds(d: int)
    requires
        0 <= d <= 90,
    ensures
        0 <= sin_table(d) <= 1_000_000,
        d < 90 ==> sin_table(d) <= sin_table(d + 1),
{
}

/// The interpolated quarter-circle sine stays within [0, 1e6].
proof fn lemma_sin_quarter_bounds(r: int)
    requires
        0 <= r <= QUARTER_TURN,
    ensures
        0 <= sin_quarter(r) <= 1_000_000,
{
    let d = r / 1_000_000;
    let f = r % 1_000_000;
    if d < 90 {
        lemma_sin_table_bounds(d);
        lemma_sin_table_bounds(d + 1);
        let diff = sin_table(d + 1) - sin_table(d);
        assert(0 <= diff * f <= diff * 1_000_000) by (nonlinear_arith)
            requires
                0 <= diff,
                0 <= f < 1_000_000,
        ;
        assert((diff * f) / 1_000_000 <= (diff * 1_000_000) / 1_000_000) by {
            vstd::arithmetic::div_mod::lemma_div_is_ordered(
                diff * f,
                diff * 1_000_000,
                1_000_000,
            );
        }
        assert((diff * 1_000_000) / 1_000_000 == diff) by {
            vstd::arithmetic::div_mod::lemma_div_multiples_vanish(diff, 1_000_000);
        }
        assert(0 <= (diff * f) / 1_000_000) by {
            vstd::arithmetic::div_mod::lemma_div_pos_is_pos(diff * f, 1_000_000);
        }
    }
}

/// The sine of any angle stays within [-1e6, 1e6].
pub proof fn lemma_sin_mdeg_bounds(a: int)
    ensures
        -1_000_000 <= sin_mdeg(a) <= 1_000_000,
{
    let norm = a % (FULL_TURN as int);
    let q = norm / (QUARTER_TURN as int);
    let r = norm % (QUARTER_TURN as int);
    vstd::arithmetic::div_mod::lemma_mod_bound(a, FULL_TURN as int);
    vstd::arithmetic::div_mod::lemma_mod_bound(norm, QUARTER_TURN as int);
    lemma_sin_quarter_bounds(r);
    lemma_sin_quarter_bounds(QUARTER_TURN - r);
}

/// The sine of one whole degree count, from the table.
fn sin_table_exec(d: i64) -> (r: i64)
    requires
        0 <= d <= 90,
    ensures
        r as int == sin_table(d as int),
        0 <= r <= 1_000_000,
{
    if d <= 0 {
        0
    } else if d <= 1 {
        17452
    } else if d <= 2 {
        34899
    } else if d <= 3 {
        52336
    } else if d <= 4 {
        69756
    } else if d <= 5 {
        87156
    } else if d <= 6 {
        104528
    } else if d <= 7 {
        121869
    } else if d <= 8 {
        139173
    } else if d <= 9 {
        156434
    } else if d <= 10 {
        173648
    } else if d <= 11 {
        190809
    } else if d <= 12 {
        207912
    } else if d <= 13 {
        224951
    } else if d <= 14 {
        241922
    } else if d <= 15 {
        258819
    } else if d <= 16 {
        275637
    } else if d <= 17 {
        292372
    } else if d <= 18 {
        309017
    } else if d <= 19 {
        325568
    } else if d <= 20 {
        342020
    } else if d <= 21 {
        358368
    } else if d <= 22 {
        374607
    } else if d <= 23 {
        390731
    } else if d <= 24 {
        406737
    } else if d <= 25 {
        422618
    } else if d <= 26 {
        438371
    } else if d <= 27 {
        453990
    } else if d <= 28 {
        469472
    } else if d <= 29 {
        484810
    } else if d <= 30 {
        500000
    } else if d <= 31 {
        515038
    } else if d <= 32 {
        529919
    } else if d <= 33 {
        544639
    } else if d <= 34 {
        559193
    } else if d <= 35 {
        573576
    } else if d <= 36 {
        587785
    } else if d <= 37 {
        601815
    } else if d <= 38 {
        615661
    } else if d <= 39 {
        629320
    } else if d <= 40 {
        642788
    } else if d <= 41 {
        656059
    } else if d <= 42 {
        669131
    } else if d <= 43 {
        681998
    } else if d <= 44 {
        694658
    } else if d <= 45 {
        707107
    } else if d <= 46 {
        719340
    } else if d <= 47 {
        731354
    } else if d <= 48 {
        743145
    } else if d <= 49 {
        754710
    } else if d <= 50 {
        766044
    } else if d <= 51 {
        777146
    } else if d <= 52 {
        788011
    } else if d <= 53 {
        798636
    } else if d <= 54 {
        809017
    } else if d <= 55 {
        819152
    } else if d <= 56 {
        829038
    } else if d <= 57 {
        838671
    } else if d <= 58 {
        848048
    } else if d <= 59 {
        857167
    } else if d <= 60 {
        866025
    } else if d <= 61 {
        874620
    } else if d <= 62 {
        882948
    } else if d <= 63 {
        891007
    } else if d <= 64 {
        898794
    } else if d <= 65 {
        906308
    } else if d <= 66 {
        913545
    } else if d <= 67 {
        920505
    } else if d <= 68 {
        927184
    } else if d <= 69 {
        933580
    } else if d <= 70 {
        939693
    } else if d <= 71 {
        945519
    } else if d <= 72 {
        951057
    } else if d <= 73 {
        956305
    } else if d <= 74 {
        961262
    } else if d <= 75 {
        965926
    } else if d <= 76 {
        970296
    } else if d <= 77 {
        974370
    } else if d <= 78 {
        978148
    } else if d <= 79 {
        981627
    } else if d <= 80 {
        984808
    } else if d <= 81 {
        987688
    } else if d <= 82 {
        990268
    } else if d <= 83 {
        992546
    } else if d <= 84 {
        994522
    } else if d <= 85 {
        996195
    } else if d <= 86 {
        997564
    } else if d <= 87 {
        998630
    } else if d <= 88 {
        999391
    } else if d <= 89 {
        999848
    } else {
        1000000
    }
}

/// The interpolated first-quadrant sine.
fn sin_quarter_exec(r: i64) -> (v: i64)
    requires
        0 <= r <= QUARTER_TURN,
    ensures
        v as int == sin_quarter(r as int),
        0 <= v <= 1_000_000,
{
    proof {
        lemma_sin_quarter_bounds(r as int);
    }
    let d = r / 1_000_000;
    let f = r % 1_000_000;
    if d >= 90 {
        1_000_000
    } else {
        let ta = sin_table_exec(d);
        let tb = sin_table_exec(d + 1);
        proof {
            lemma_sin_table_bounds(d as int);
            assert(0 <= (tb - ta) * f <= 1_000_000 * 1_000_000) by (nonlinear_arith)
                requires
                    0 <= tb - ta <= 1_000_000,
                    0 <= f < 1_000_000,
            ;
        }
        ta + ((tb - ta) * f) / 1_000_000
    }
}

/// The sine of an angle in millionths of a degree, in millionths.
pub fn sin_micro_deg(a: i64) -> (v: i64)
    requires
        -2 * MAX_ABS_MICROS <= a <= 2 * MAX_ABS_MICROS,
    ensures
        v as int == sin_mdeg(a as int),
        -1_000_000 <= v <= 1_000_000,
{
    proof {
        lemma_sin_mdeg_bounds(a as int);
        vstd::arithmetic::div_mod::lemma_mod_multiples_vanish(
            8_333_334,
            a as int,
            FULL_TURN as int,
        );
    }
    let shifted = a + 3_000_000_240_000_000;
    let norm = shifted % FULL_TURN;
    proof {
        assert(8_333_334 * (FULL_TURN as int) == 3_000_000_240_000_000);
        assert(norm as int == (a as int) % (FULL_TURN as int));
        vstd::arithmetic::div_mod::lemma_mod_bound(a as int, FULL_TURN as int);
        vstd::arithmetic::div_mod::lemma_mod_bound(norm as int, QUARTER_TURN as int);
    }
    let q = norm / QUARTER_TURN;
    let r = norm % QUARTER_TURN;
    if q == 0 {
        sin_quarter_exec(r)
    } else if q == 1 {
        sin_quarter_exec(QUARTER_TURN - r)
    } else if q == 2 {
        -sin_quarter_exec(r)
    } else {
        -sin_quarter_exec(QUARTER_TURN - r)
    }
}

/// The cosine of an angle in millionths of a degree, in millionths.
pub fn cos_micro_deg(a: i64) -> (v: i64)
    requires
        -MAX_ABS_MICROS <= a <= MAX_ABS_MICROS,
    ensures
        v as int == cos_mdeg(a as int),
        -1_000_000 <= v <= 1_000_000,
{
    sin_micro_deg(a + QUARTER_TURN)
}

/// Divides by one million, truncating toward zero.
fn div_million(a: i128) -> (r: i128)
    requires
        -3_000_000_000_000_000_000_000 <= a <= 3_000_000_000_000_000_000_000,
    ensures
        r as int == tdiv_million(a as int),
        a >= 0 ==> 0 <= r <= a,
        a < 0 ==> a <= r <= 0,
    decreases 0int,
{
    proof {
        if a >= 0 {
            vstd::arithmetic::div_mod::lemma_div_pos_is_pos(a as int, 1_000_000);
            vstd::arithmetic::div_mod::lemma_div_is_ordered_by_denominator(a as int, 1, 1_000_000);
        } else {
            vstd::arithmetic::div_mod::lemma_div_pos_is_pos(-(a as int), 1_000_000);
            vstd::arithmetic::div_mod::lemma_div_is_ordered_by_denominator(
                -(a as int),
                1,
                1_000_000,
            );
        }
    }
    if a >= 0 {
        a / 1_000_000
    } else {
        -((-a) / 1_000_000)
    }
}

/// Rotates `(px, py)` counter-clockwise by `deg` millionths of a degree
/// about the origin.
pub fn rotate_point(px: i64, py: i64, deg: i64) -> (r: (i64, i64))
    requires
        -MAX_ABS_MICROS <= px <= MAX_ABS_MICROS,
        -MAX_ABS_MICROS <= py <= MAX_ABS_MICROS,
        -MAX_ABS_MICROS <= deg <= MAX_ABS_MICROS,
    ensures
        r.0 as int == rot_x(px as int, py as int, deg as int),
        r.1 as int == rot_y(px as int, py as int, deg as int),
        -2 * MAX_ABS_MICROS <= r.0 <= 2 * MAX_ABS_MICROS,
        -2 * MAX_ABS_MICROS <= r.1 <= 2 * MAX_ABS_MICROS,
{
    let c = cos_micro_deg(deg);
    let s = sin_micro_deg(deg);
    proof {
        lemma_rot_products_bounded(px as int, py as int, c as int, s as int);
    }
    let xc = (px as i128) * (c as i128);
    let ys = (py as i128) * (s as i128);
    let xs = (px as i128) * (s as i128);
    let yc = (py as i128) * (c as i128);
    let nx = xc - ys;
    let ny = xs + yc;
    let rx = div_million(nx);
    let ry = div_million(ny);
    proof {
        vstd::arithmetic::div_mod::lemma_div_is_ordered(
            (if nx as int >= 0 { nx as int } else { -(nx as int) }),
            2_000_000_000_000_000_000_000,
            1_000_000,
        );
        vstd::arithmetic::div_mod::lemma_div_is_ordered(
            (if ny as int >= 0 { ny as int } else { -(ny as int) }),
            2_000_000_000_000_000_000_000,
            1_000_000,
        );
    }
    (rx as i64, ry as i64)
}

/// Bilinear bounds for the rotation products.
proof fn lemma_rot_products_bounded(px: int, py: int, c: int, s: int)
    requires
        -MAX_ABS_MICROS <= px <= MAX_ABS_MICROS,
        -MAX_ABS_MICROS <= py <= MAX_ABS_MICROS,
        -1_000_000 <= c <= 1_000_000,
        -1_000_000 <= s <= 1_000_000,
    ensures
        -1_000_000_000_000_000_000_000 <= px * c <= 1_000_000_000_000_000_000_000,
        -1_000_000_000_000_000_000_000 <= py * s <= 1_000_000_000_000_000_000_000,
        -1_000_000_000_000_000_000_000 <= px * s <= 1_000_000_000_000_000_000_000,
        -1_000_000_000_000_000_000_000 <= py * c <= 1_000_000_000_000_000_000_000,
{
    assert(-1_000_000_000_000_000_000_000 <= px * c <= 1_000_000_000_000_000_000_000)
        by (nonlinear_arith)
        requires
            -1_000_000_000_000_000 <= px <= 1_000_000_000_000_000,
            -1_000_000 <= c <= 1_000_000,
    ;
    assert(-1_000_000_000_000_000_000_000 <= py * s <= 1_000_000_000_000_000_000_000)
        by (nonlinear_arith)
        requires
            -1_000_000_000_000_000 <= py <= 1_000_000_000_000_000,
            -1_000_000 <= s <= 1_000_000,
    ;
    assert(-1_000_000_000_000_000_000_000 <= px * s <= 1_000_000_000_000_000_000_000)
        by (nonlinear_arith)
        requires
            -1_000_000_000_000_000 <= px <= 1_000_000_000_000_000,
            -1_000_000 <= s <= 1_000_000,
    ;
    assert(-1_000_000_000_000_000_000_000 <= py * c <= 1_000_000_000_000_000_000_000)
        by (nonlinear_arith)
        requires
            -1_000_000_000_000_000 <= py <= 1_000_000_000_000_000,
            -1_000_000 <= c <= 1_000_000,
    ;
}

/// The sines and cosines at the quadrant angles are exact.
#[verifier::rlimit(100)]
pub proof fn lemma_quadrant_exact()
    ensures
        sin_mdeg(0) == 0,
        sin_mdeg(90_000_000) == 1_000_000,
        sin_mdeg(180_000_000) == 0,
        sin_mdeg(270_000_000) == -1_000_000,
        cos_mdeg(0) == 1_000_000,
        cos_mdeg(90_000_000) == 0,
        cos_mdeg(180_000_000) == -1_000_000,
        cos_mdeg(270_000_000) == 0,
{
    assert(sin_table(0) == 0);
    assert(sin_table(1int) == 17452);
    assert(sin_quarter(0) == sin_table(0) + ((sin_table(1int) - sin_table(0)) * 0) / 1_000_000);
    assert(sin_quarter(0) == 0);
    assert(sin_quarter(90_000_000) == 1_000_000);
}

} // verus!
