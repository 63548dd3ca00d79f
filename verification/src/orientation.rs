//! EXIF orientation tags as elements of the symmetry group of the square.
//!
//! A tag `t` in `1..=8` stands for the transform that displays the stored
//! pixels upright: some number of clockwise quarter turns, followed by an
//! optional left-right mirror. Tags outside `1..=8` are read as `1`.

use vstd::prelude::*;
use vstd::arithmetic::div_mod::{
    lemma_add_mod_noop, lemma_add_mod_noop_right, lemma_sub_mod_noop, lemma_sub_mod_noop_right,
};

verus! {

/// A symmetry of the square: `(turns, mirrored)` means "rotate clockwise by
/// `turns` quarter turns, then mirror left-right if `mirrored`".
pub type Symmetry = (int, bool);

/// Missing or unknown tags count as "normal" (1).
pub open spec fn normalize_tag(t: int) -> int {
    if 1 <= t <= 8 {
        t
    } else {
        1
    }
}

/// The symmetry that a (normalised) tag stands for.
pub open spec fn tag_symmetry(t: int) -> Symmetry {
    let t = normalize_tag(t);
    if t == 1 {
        (0, false)
    } else if t == 2 {
        (0, true)
    } else if t == 3 {
        (2, false)
    } else if t == 4 {
        (2, true)
    } else if t == 5 {
        (1, true)
    } else if t == 6 {
        (1, false)
    } else if t == 7 {
        (3, true)
    } else {
        (3, false)
    }
}

/// The tag that stands for a symmetry (quarter turns taken modulo 4).
pub open spec fn symmetry_tag(e: Symmetry) -> int {
    let r = e.0 % 4;
    if !e.1 {
        if r == 0 {
            1
        } else if r == 1 {
            6
        } else if r == 2 {
            3
        } else {
            8
        }
    } else {
        if r == 0 {
            2
        } else if r == 1 {
            5
        } else if r == 2 {
            4
        } else {
            7
        }
    }
}

/// `k` more clockwise quarter turns applied after `e`. A mirror reverses the
/// sense of rotation, so it is subtracted from a mirrored element.
pub open spec fn turn_cw(e: Symmetry, k: int) -> Symmetry {
    if e.1 {
        ((e.0 - k) % 4, true)
    } else {
        ((e.0 + k) % 4, false)
    }
}

/// A left-right mirror applied after `e`.
pub open spec fn mirror_h(e: Symmetry) -> Symmetry {
    (e.0 % 4, !e.1)
}

/// An up-down mirror applied after `e` (a half turn followed by a left-right mirror).
pub open spec fn mirror_v(e: Symmetry) -> Symmetry {
    ((e.0 + 2) % 4, !e.1)
}

/// Clockwise quarter turns in a rotation of `degrees`.
pub open spec fn quarter_turns(degrees: int) -> int {
    (degrees / 90) % 4
}

pub open spec fn spec_compose_cw(orientation: int, degrees: int) -> int {
    symmetry_tag(turn_cw(tag_symmetry(orientation), quarter_turns(degrees)))
}

pub open spec fn spec_compose_flip_h(orientation: int) -> int {
    symmetry_tag(mirror_h(tag_symmetry(orientation)))
}

pub open spec fn spec_compose_flip_v(orientation: int) -> int {
    symmetry_tag(mirror_v(tag_symmetry(orientation)))
}

pub open spec fn spec_compose_transform(orientation: int, degrees: int, flip_h: bool, flip_v: bool) -> int {
    let a = spec_compose_cw(orientation, degrees);
    let b = if flip_h { spec_compose_flip_h(a) } else { a };
    if flip_v { spec_compose_flip_v(b) } else { b }
}

/// One clockwise quarter turn, tag to tag.
fn quarter_turn(tag: u32) -> (r: u32)
    requires
        1 <= tag <= 8,
    ensures
        r == spec_compose_cw(tag as int, 90),
        1 <= r <= 8,
{
    match tag {
        1 => 6,
        2 => 7,
        3 => 8,
        4 => 5,
        5 => 2,
        6 => 3,
        7 => 4,
        _ => 1,
    }
}

/// Compose an existing EXIF orientation with a clockwise display rotation.
pub fn compose_orientation_cw(orientation: u32, degrees: u32) -> (r: u32)
    ensures
        r == spec_compose_cw(orientation as int, degrees as int),
        1 <= r <= 8,
{
    let mut tag = if 1 <= orientation && orientation <= 8 { orientation } else { 1 };
    let steps = (degrees / 90) % 4;
    let mut i: u32 = 0;
    while i < steps
        invariant
            steps == quarter_turns(degrees as int),
            0 <= i <= steps,
            1 <= tag <= 8,
            tag_symmetry(tag as int) == turn_cw(tag_symmetry(orientation as int), i as int),
        decreases steps - i,
    {
        tag = quarter_turn(tag);
        i = i + 1;
    }
    tag
}

/// Mirror across the vertical axis (left-right).
pub fn compose_flip_h(orientation: u32) -> (r: u32)
    ensures
        r == spec_compose_flip_h(orientation as int),
        1 <= r <= 8,
{
    match if 1 <= orientation && orientation <= 8 { orientation } else { 1 } {
        1 => 2,
        2 => 1,
        3 => 4,
        4 => 3,
        5 => 6,
        6 => 5,
        7 => 8,
        _ => 7,
    }
}

/// Mirror across the horizontal axis (up-down).
pub fn compose_flip_v(orientation: u32) -> (r: u32)
    ensures
        r == spec_compose_flip_v(orientation as int),
        1 <= r <= 8,
{
    match if 1 <= orientation && orientation <= 8 { orientation } else { 1 } {
        1 => 4,
        2 => 3,
        3 => 2,
        4 => 1,
        5 => 8,
        6 => 7,
        7 => 6,
        _ => 5,
    }
}

/// Rotation then optional flips, composed onto an existing EXIF tag.
pub fn compose_transform(orientation: u32, degrees: u32, flip_h: bool, flip_v: bool) -> (r: u32)
    ensures
        r == spec_compose_transform(orientation as int, degrees as int, flip_h, flip_v),
        1 <= r <= 8,
{
    let mut tag = compose_orientation_cw(orientation, degrees);
    if flip_h {
        tag = compose_flip_h(tag);
    }
    if flip_v {
        tag = compose_flip_v(tag);
    }
    tag
}

/// Every tag in `1..=8` stands for a distinct symmetry: reading a tag as a
/// symmetry and writing it back gives the same tag.
pub proof fn law_tag_round_trip(t: int)
    requires
        1 <= t <= 8,
    ensures
        symmetry_tag(tag_symmetry(t)) == t,
{
}

proof fn lemma_quarter_turns_of_multiple(i: int)
    requires
        i >= 0,
    ensures
        quarter_turns(90 * i) == i % 4,
{
    assert((90 * i) / 90 == i) by (nonlinear_arith)
        requires
            i >= 0,
    ;
}

proof fn lemma_symmetry_round_trip(e: Symmetry)
    requires
        0 <= e.0 < 4,
    ensures
        tag_symmetry(symmetry_tag(e)) == e,
{
}

proof fn lemma_turns_compose(e: Symmetry, a: int, b: int)
    requires
        0 <= e.0 < 4,
    ensures
        turn_cw(turn_cw(e, a % 4), b % 4) == turn_cw(e, (a + b) % 4),
{
    let r = e.0;
    lemma_sub_mod_noop(r - a % 4, b, 4);
    lemma_sub_mod_noop_right(r - b, a, 4);
    lemma_sub_mod_noop_right(r, a + b, 4);
    assert(r - a % 4 - b == (r - b) - a % 4);
    assert(r - b - a == r - (a + b));
    lemma_add_mod_noop(r + a % 4, b, 4);
    lemma_add_mod_noop_right(r + b, a, 4);
    lemma_add_mod_noop_right(r, a + b, 4);
    assert(r + a % 4 + b == (r + b) + a % 4);
    assert(((r - a % 4) % 4 - b % 4) % 4 == (r - (a + b) % 4) % 4);
    assert(((r + a % 4) % 4 + b % 4) % 4 == (r + (a + b) % 4) % 4);
}

/// Rotating by `90 * i` and then by `90 * j` degrees composes to a rotation
/// by `90 * (i + j)` degrees.
pub proof fn law_rotations_add(orientation: int, i: int, j: int)
    requires
        i >= 0,
        j >= 0,
    ensures
        spec_compose_cw(spec_compose_cw(orientation, 90 * i), 90 * j)
            == spec_compose_cw(orientation, 90 * (i + j)),
{
    lemma_quarter_turns_of_multiple(i);
    lemma_quarter_turns_of_multiple(j);
    lemma_quarter_turns_of_multiple(i + j);
    let e = tag_symmetry(orientation);
    let mid = turn_cw(e, i % 4);
    lemma_symmetry_round_trip(mid);
    lemma_turns_compose(e, i, j);
}

/// A full turn, or no turn at all, leaves a tag as it is (unknown tags read as 1).
pub proof fn law_full_turn(orientation: int)
    ensures
        spec_compose_cw(orientation, 0) == normalize_tag(orientation),
        spec_compose_cw(orientation, 360) == normalize_tag(orientation),
{
}

/// A quarter turn clockwise followed by three more is the identity, so
/// rotating 90 degrees can be undone by rotating 270 degrees.
pub proof fn law_rotation_undone(orientation: int)
    ensures
        spec_compose_cw(spec_compose_cw(orientation, 90), 270) == normalize_tag(orientation),
        spec_compose_cw(spec_compose_cw(orientation, 270), 90) == normalize_tag(orientation),
{
}

/// Mirroring twice along the same axis gives back the tag.
pub proof fn law_flips_are_involutions(orientation: int)
    ensures
        spec_compose_flip_h(spec_compose_flip_h(orientation)) == normalize_tag(orientation),
        spec_compose_flip_v(spec_compose_flip_v(orientation)) == normalize_tag(orientation),
{
}

/// A left-right mirror and an up-down mirror together make a half turn, in either order.
pub proof fn law_two_flips_are_half_turn(orientation: int)
    ensures
        spec_compose_flip_v(spec_compose_flip_h(orientation)) == spec_compose_cw(orientation, 180),
        spec_compose_flip_h(spec_compose_flip_v(orientation)) == spec_compose_cw(orientation, 180),
{
}

/// A mirror reverses the sense of rotation: turning clockwise and then
/// mirroring equals mirroring and then turning counter-clockwise.
pub proof fn law_mirror_reverses_rotation(orientation: int)
    ensures
        spec_compose_flip_h(spec_compose_cw(orientation, 90))
            == spec_compose_cw(spec_compose_flip_h(orientation), 270),
        spec_compose_flip_v(spec_compose_cw(orientation, 90))
            == spec_compose_cw(spec_compose_flip_v(orientation), 270),
{
}

} // verus!
