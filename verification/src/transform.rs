//! Coordinate algebra between the canonical workspace and the native
//! axes of each hardware variant. The older generation mounts its
//! stylus sensor in portrait against a logical landscape, so its
//! transform swaps and flips axes; the newer one only scales. That
//! asymmetry is a physical-mounting fact and is kept per variant here
//! rather than unified.

use vstd::prelude::*;

use crate::device_model::DeviceModel;
use crate::geometry::{VIRTUAL_HEIGHT, VIRTUAL_WIDTH};

verus! {

/// Scale `v` out of `0..=n` into `0..=m`, rounding down.
pub open spec fn sp_scale(v: int, n: int, m: int) -> int {
    v * m / n
}

/// Stylus transform: canonical point to native digitizer coordinates.
pub open spec fn sp_pen_transform(model: DeviceModel, x: int, y: int) -> (int, int) {
    match model {
        DeviceModel::RemarkablePaperPro => (
            sp_scale(x, VIRTUAL_WIDTH as int, model.spec_pen_max_x() as int),
            sp_scale(y, VIRTUAL_HEIGHT as int, model.spec_pen_max_y() as int),
        ),
        _ => (
            sp_scale(VIRTUAL_HEIGHT as int - y, VIRTUAL_HEIGHT as int, model.spec_pen_max_y() as int),
            sp_scale(x, VIRTUAL_WIDTH as int, model.spec_pen_max_x() as int),
        ),
    }
}

/// Stylus inverse transform: native digitizer coordinates back to the
/// canonical workspace.
pub open spec fn sp_pen_inverse(model: DeviceModel, xn: int, yn: int) -> (int, int) {
    match model {
        DeviceModel::RemarkablePaperPro => (
            sp_scale(xn, model.spec_pen_max_x() as int, VIRTUAL_WIDTH as int),
            sp_scale(yn, model.spec_pen_max_y() as int, VIRTUAL_HEIGHT as int),
        ),
        _ => (
            sp_scale(yn, model.spec_pen_max_x() as int, VIRTUAL_WIDTH as int),
            VIRTUAL_HEIGHT as int - sp_scale(xn, model.spec_pen_max_y() as int, VIRTUAL_HEIGHT as int),
        ),
    }
}

/// Touch transform: canonical point to native sensor coordinates.
pub open spec fn sp_touch_transform(model: DeviceModel, x: int, y: int) -> (int, int) {
    match model {
        DeviceModel::RemarkablePaperPro => (
            sp_scale(x, VIRTUAL_WIDTH as int, model.spec_touch_width() as int),
            sp_scale(y, VIRTUAL_HEIGHT as int, model.spec_touch_height() as int),
        ),
        _ => (
            sp_scale(x, VIRTUAL_WIDTH as int, model.spec_touch_width() as int),
            sp_scale(VIRTUAL_HEIGHT as int - y, VIRTUAL_HEIGHT as int, model.spec_touch_height() as int),
        ),
    }
}

/// Clamp `v` into `lo..=hi`.
pub open spec fn sp_clamp(v: int, lo: int, hi: int) -> int {
    vstd::math::min(vstd::math::max(v, lo), hi)
}

/// Touch inverse transform: a native sensor position (clamped into the
/// sensor range first, since raw event values are untrusted) back to
/// the canonical workspace.
pub open spec fn sp_touch_inverse(model: DeviceModel, xn: int, yn: int) -> (int, int) {
    let cx = sp_clamp(xn, 0, model.spec_touch_width() as int);
    let cy = sp_clamp(yn, 0, model.spec_touch_height() as int);
    match model {
        DeviceModel::RemarkablePaperPro => (
            sp_scale(cx, model.spec_touch_width() as int, VIRTUAL_WIDTH as int),
            sp_scale(cy, model.spec_touch_height() as int, VIRTUAL_HEIGHT as int),
        ),
        _ => (
            sp_scale(cx, model.spec_touch_width() as int, VIRTUAL_WIDTH as int),
            VIRTUAL_HEIGHT as int - sp_scale(cy, model.spec_touch_height() as int, VIRTUAL_HEIGHT as int),
        ),
    }
}

/// Scaling into a coarser axis and back loses at most one unit.
proof fn lemma_scale_round_trip(v: int, n: int, m: int)
    requires
        0 < n <= m,
        0 <= v <= n,
    ensures
        v - 1 <= sp_scale(sp_scale(v, n, m), m, n) <= v,
{
    let t = v * m / n;
    vstd::arithmetic::div_mod::lemma_fundamental_div_mod(v * m, n);
    vstd::arithmetic::div_mod::lemma_mod_division_less_than_divisor(v * m, n);
    let r = (v * m) % n;
    assert(t * n == v * m - r) by (nonlinear_arith)
        requires
            v * m == n * t + r,
    ;
    assert(v * m >= 0) by (nonlinear_arith)
        requires
            v >= 0 && m > 0,
    ;
    vstd::arithmetic::div_mod::lemma_fundamental_div_mod(t * n, m);
    vstd::arithmetic::div_mod::lemma_mod_division_less_than_divisor(t * n, m);
    let q = t * n / m;
    let s = (t * n) % m;
    assert(m * (v - q) == s + r) by (nonlinear_arith)
        requires
            t * n == m * q + s,
            t * n == v * m - r,
    ;
    assert(0 <= s + r < 2 * m);
    assert(v - q == 0 || v - q == 1) by (nonlinear_arith)
        requires
            m * (v - q) == s + r,
            0 <= s + r < 2 * m,
            m > 0,
    ;
}

/// A value scaled into a larger axis stays within that axis.
proof fn lemma_scale_bounds(v: int, n: int, m: int)
    requires
        0 < n,
        0 < m,
        0 <= v <= n,
    ensures
        0 <= sp_scale(v, n, m) <= m,
{
    vstd::arithmetic::div_mod::lemma_div_pos_is_pos(v * m, n);
    assert(v * m >= 0) by (nonlinear_arith)
        requires
            v >= 0 && m > 0,
    ;
    assert(v * m <= n * m) by (nonlinear_arith)
        requires
            v <= n && m > 0,
    ;
    vstd::arithmetic::div_mod::lemma_div_is_ordered(v * m, n * m, n);
    vstd::arithmetic::div_mod::lemma_div_multiples_vanish(m, n);
    assert(n * m / n == m);
}

/// Driving the stylus transform forward and back moves a canonical
/// point by at most one unit in each direction, on every variant.
pub proof fn lemma_pen_transform_round_trip(model: DeviceModel, x: int, y: int)
    requires
        0 <= x <= VIRTUAL_WIDTH as int,
        0 <= y <= VIRTUAL_HEIGHT as int,
    ensures
        ({
            let (xn, yn) = sp_pen_transform(model, x, y);
            let (xr, yr) = sp_pen_inverse(model, xn, yn);
            x - 1 <= xr <= x && y <= yr <= y + 1 || x - 1 <= xr <= x && y - 1 <= yr <= y
        }),
{
    let mx = model.spec_pen_max_x() as int;
    let my = model.spec_pen_max_y() as int;
    match model {
        DeviceModel::RemarkablePaperPro => {
            lemma_scale_round_trip(x, VIRTUAL_WIDTH as int, mx);
            lemma_scale_round_trip(y, VIRTUAL_HEIGHT as int, my);
        },
        _ => {
            lemma_scale_round_trip(x, VIRTUAL_WIDTH as int, mx);
            lemma_scale_round_trip(VIRTUAL_HEIGHT as int - y, VIRTUAL_HEIGHT as int, my);
        },
    }
}

/// Driving the touch transform forward and back moves a canonical
/// point by at most one unit in each direction, on every variant.
pub proof fn lemma_touch_transform_round_trip(model: DeviceModel, x: int, y: int)
    requires
        0 <= x <= VIRTUAL_WIDTH as int,
        0 <= y <= VIRTUAL_HEIGHT as int,
    ensures
        ({
            let (xn, yn) = sp_touch_transform(model, x, y);
            let (xr, yr) = sp_touch_inverse(model, xn, yn);
            x - 1 <= xr <= x && (y <= yr <= y + 1 || y - 1 <= yr <= y)
        }),
{
    let w = model.spec_touch_width() as int;
    let h = model.spec_touch_height() as int;
    let (xn, yn) = sp_touch_transform(model, x, y);
    lemma_scale_bounds(x, VIRTUAL_WIDTH as int, w);
    lemma_scale_round_trip(x, VIRTUAL_WIDTH as int, w);
    match model {
        DeviceModel::RemarkablePaperPro => {
            lemma_scale_bounds(y, VIRTUAL_HEIGHT as int, h);
            lemma_scale_round_trip(y, VIRTUAL_HEIGHT as int, h);
            assert(sp_clamp(xn, 0, w) == xn);
            assert(sp_clamp(yn, 0, h) == yn);
        },
        _ => {
            lemma_scale_bounds(VIRTUAL_HEIGHT as int - y, VIRTUAL_HEIGHT as int, h);
            lemma_scale_round_trip(VIRTUAL_HEIGHT as int - y, VIRTUAL_HEIGHT as int, h);
            assert(sp_clamp(xn, 0, w) == xn);
            assert(sp_clamp(yn, 0, h) == yn);
        },
    }
}

/// Exec stylus transform.
pub fn pen_virtual_to_input(model: DeviceModel, point: (i32, i32)) -> (r: (i32, i32))
    requires
        0 <= point.0 <= VIRTUAL_WIDTH as int,
        0 <= point.1 <= VIRTUAL_HEIGHT as int,
    ensures
        (r.0 as int, r.1 as int) == sp_pen_transform(model, point.0 as int, point.1 as int),
        0 <= r.0 <= vstd::math::max(model.spec_pen_max_x() as int, model.spec_pen_max_y() as int),
        0 <= r.1 <= vstd::math::max(model.spec_pen_max_x() as int, model.spec_pen_max_y() as int),
{
    let (x, y) = point;
    let mx = model.pen_max_x();
    let my = model.pen_max_y();
    proof {
        lemma_scale_bounds(x as int, VIRTUAL_WIDTH as int, mx as int);
        lemma_scale_bounds(y as int, VIRTUAL_HEIGHT as int, my as int);
        lemma_scale_bounds(VIRTUAL_HEIGHT as int - y as int, VIRTUAL_HEIGHT as int, my as int);
        assert(x as int * mx as int <= 768 * 15725) by (nonlinear_arith)
            requires
                0 <= x as int <= 768 && 0 < mx as int <= 15725,
        ;
        assert(x as int * mx as int >= 0) by (nonlinear_arith)
            requires
                x as int >= 0 && mx as int >= 0,
        ;
        assert(y as int * my as int <= 1024 * 20966) by (nonlinear_arith)
            requires
                0 <= y as int <= 1024 && 0 < my as int <= 20966,
        ;
        assert(y as int * my as int >= 0) by (nonlinear_arith)
            requires
                y as int >= 0 && my as int >= 0,
        ;
        assert((1024 - y as int) * my as int <= 1024 * 20966) by (nonlinear_arith)
            requires
                0 <= 1024 - y as int <= 1024 && 0 < my as int <= 20966,
        ;
        assert((1024 - y as int) * my as int >= 0) by (nonlinear_arith)
            requires
                1024 - y as int >= 0 && my as int >= 0,
        ;
    }
    match model {
        DeviceModel::RemarkablePaperPro => (x * mx / VIRTUAL_WIDTH, y * my / VIRTUAL_HEIGHT),
        _ => ((VIRTUAL_HEIGHT - y) * my / VIRTUAL_HEIGHT, x * mx / VIRTUAL_WIDTH),
    }
}

/// Exec touch transform.
pub fn touch_virtual_to_input(model: DeviceModel, point: (i32, i32)) -> (r: (i32, i32))
    requires
        0 <= point.0 <= VIRTUAL_WIDTH as int,
        0 <= point.1 <= VIRTUAL_HEIGHT as int,
    ensures
        (r.0 as int, r.1 as int) == sp_touch_transform(model, point.0 as int, point.1 as int),
        0 <= r.0 <= model.spec_touch_width() as int,
        0 <= r.1 <= model.spec_touch_height() as int,
{
    let (x, y) = point;
    let w = model.touch_width();
    let h = model.touch_height();
    proof {
        lemma_scale_bounds(x as int, VIRTUAL_WIDTH as int, w as int);
        lemma_scale_bounds(y as int, VIRTUAL_HEIGHT as int, h as int);
        lemma_scale_bounds(VIRTUAL_HEIGHT as int - y as int, VIRTUAL_HEIGHT as int, h as int);
        assert(x as int * w as int <= 768 * 2065 && x as int * w as int >= 0) by (nonlinear_arith)
            requires
                0 <= x as int <= 768 && 0 < w as int <= 2065,
        ;
        assert(y as int * h as int <= 1024 * 2833 && y as int * h as int >= 0) by (nonlinear_arith)
            requires
                0 <= y as int <= 1024 && 0 < h as int <= 2833,
        ;
        assert((1024 - y as int) * h as int <= 1024 * 2833 && (1024 - y as int) * h as int >= 0)
            by (nonlinear_arith)
            requires
                0 <= 1024 - y as int <= 1024 && 0 < h as int <= 2833,
        ;
    }
    match model {
        DeviceModel::RemarkablePaperPro => (x * w / VIRTUAL_WIDTH, y * h / VIRTUAL_HEIGHT),
        _ => (x * w / VIRTUAL_WIDTH, (VIRTUAL_HEIGHT - y) * h / VIRTUAL_HEIGHT),
    }
}

/// Exec touch inverse transform, for raw event positions.
pub fn touch_input_to_virtual(model: DeviceModel, point: (i32, i32)) -> (r: (i32, i32))
    ensures
        (r.0 as int, r.1 as int) == sp_touch_inverse(model, point.0 as int, point.1 as int),
        0 <= r.0 <= VIRTUAL_WIDTH as int,
        0 <= r.1 <= VIRTUAL_HEIGHT as int,
{
    let w = model.touch_width();
    let h = model.touch_height();
    let cx = if point.0 < 0 {
        0
    } else if point.0 > w {
        w
    } else {
        point.0
    };
    let cy = if point.1 < 0 {
        0
    } else if point.1 > h {
        h
    } else {
        point.1
    };
    proof {
        lemma_scale_bounds(cx as int, w as int, VIRTUAL_WIDTH as int);
        lemma_scale_bounds(cy as int, h as int, VIRTUAL_HEIGHT as int);
        assert(cx as int * 768 <= 2065 * 768 && cx as int * 768 >= 0) by (nonlinear_arith)
            requires
                0 <= cx as int <= 2065,
        ;
        assert(cy as int * 1024 <= 2833 * 1024 && cy as int * 1024 >= 0) by (nonlinear_arith)
            requires
                0 <= cy as int <= 2833,
        ;
    }
    match model {
        DeviceModel::RemarkablePaperPro => (cx * VIRTUAL_WIDTH / w, cy * VIRTUAL_HEIGHT / h),
        _ => (cx * VIRTUAL_WIDTH / w, VIRTUAL_HEIGHT - cy * VIRTUAL_HEIGHT / h),
    }
}

} // verus!
