//! What saving a rotation to a file amounts to, decided from the file's
//! extension and the angle.

use vstd::prelude::*;
use crate::formats::{extension, spec_extension};
use crate::orientation::{compose_orientation_cw, compose_transform, spec_compose_cw, spec_compose_transform};
use crate::text::{chars_of, eq_chars};

verus! {

/// How a rotation is written to a file.
#[derive(Debug, Clone, Copy, PartialEq, Eq, Structural)]
pub enum SavePlan {
    /// The rotation is a whole number of turns: nothing to write, success.
    Nothing,
    /// Not a multiple of 90 degrees: refused.
    UnsupportedAngle,
    /// JPEG/TIFF: rewrite the EXIF orientation tag; rewrite the pixels if that fails.
    ExifThenPixels(u32),
    /// HEIC/HEIF, SVG, JPEG XL: no safe encoder, refused.
    NoEncoder,
    /// Other rasters: rotate the pixels and overwrite the file.
    Pixels(u32),
}

pub open spec fn is_exif_extension(e: Seq<char>) -> bool {
    e == "jpg"@ || e == "jpeg"@ || e == "jpe"@ || e == "jfif"@ || e == "tif"@ || e == "tiff"@
}

pub open spec fn is_unwritable_extension(e: Seq<char>) -> bool {
    e == "heic"@ || e == "heif"@ || e == "svg"@ || e == "jxl"@
}

pub open spec fn spec_save_plan(path: Seq<char>, degrees: int) -> SavePlan {
    let d = degrees % 360;
    let e = spec_extension(path);
    if d == 0 {
        SavePlan::Nothing
    } else if !(d == 90 || d == 180 || d == 270) {
        SavePlan::UnsupportedAngle
    } else if is_exif_extension(e) {
        SavePlan::ExifThenPixels(d as u32)
    } else if is_unwritable_extension(e) {
        SavePlan::NoEncoder
    } else {
        SavePlan::Pixels(d as u32)
    }
}

/// Decide how to persist a clockwise display rotation of `degrees` to `path`.
pub fn save_rotation_plan(path: &str, degrees: u32) -> (r: SavePlan)
    ensures
        r == spec_save_plan(path@, degrees as int),
{
    let degrees = degrees % 360;
    if degrees == 0 {
        return SavePlan::Nothing;
    }
    if !(degrees == 90 || degrees == 180 || degrees == 270) {
        return SavePlan::UnsupportedAngle;
    }
    let ext = extension(path);
    if eq_chars(&ext, "jpg") || eq_chars(&ext, "jpeg") || eq_chars(&ext, "jpe")
        || eq_chars(&ext, "jfif") || eq_chars(&ext, "tif") || eq_chars(&ext, "tiff") {
        SavePlan::ExifThenPixels(degrees)
    } else if eq_chars(&ext, "heic") || eq_chars(&ext, "heif") || eq_chars(&ext, "svg")
        || eq_chars(&ext, "jxl") {
        SavePlan::NoEncoder
    } else {
        SavePlan::Pixels(degrees)
    }
}

pub open spec fn spec_transform_plan(path: Seq<char>, degrees: int, fh: bool, fv: bool) -> SavePlan {
    let d = degrees % 360;
    let e = spec_extension(path);
    if d == 0 && !fh && !fv {
        SavePlan::Nothing
    } else if !(d == 0 || d == 90 || d == 180 || d == 270) {
        SavePlan::UnsupportedAngle
    } else if is_exif_extension(e) {
        SavePlan::ExifThenPixels(d as u32)
    } else if is_unwritable_extension(e) {
        SavePlan::NoEncoder
    } else {
        SavePlan::Pixels(d as u32)
    }
}

/// Decide how to persist a pending clockwise rotation of `degrees` and the
/// pending mirrors to `path`, the way `save_rotation_plan` does for a
/// rotation alone.
pub fn save_transform_plan(path: &str, degrees: u32, flip_h: bool, flip_v: bool) -> (r: SavePlan)
    ensures
        r == spec_transform_plan(path@, degrees as int, flip_h, flip_v),
{
    let degrees = degrees % 360;
    if degrees == 0 && !flip_h && !flip_v {
        return SavePlan::Nothing;
    }
    if !(degrees == 0 || degrees == 90 || degrees == 180 || degrees == 270) {
        return SavePlan::UnsupportedAngle;
    }
    let ext = extension(path);
    if eq_chars(&ext, "jpg") || eq_chars(&ext, "jpeg") || eq_chars(&ext, "jpe")
        || eq_chars(&ext, "jfif") || eq_chars(&ext, "tif") || eq_chars(&ext, "tiff") {
        SavePlan::ExifThenPixels(degrees)
    } else if eq_chars(&ext, "heic") || eq_chars(&ext, "heif") || eq_chars(&ext, "svg")
        || eq_chars(&ext, "jxl") {
        SavePlan::NoEncoder
    } else {
        SavePlan::Pixels(degrees)
    }
}

/// The orientation tag to write for a pending rotation and mirrors, given
/// the tag the file carries now (none reads as 1).
pub fn exif_tag_after_transform(current: Option<u32>, degrees: u32, flip_h: bool, flip_v: bool) -> (r: u32)
    ensures
        r == spec_compose_transform(
            match current {
                Some(t) => t as int,
                None => 1,
            },
            degrees as int,
            flip_h,
            flip_v,
        ),
        1 <= r <= 8,
{
    let tag = match current {
        Some(t) => t,
        None => 1,
    };
    compose_transform(tag, degrees, flip_h, flip_v)
}

/// The editors `Ctrl+E` tries, in order: Tensaku, then Pinta.
pub fn editor_commands() -> (r: Vec<&'static str>)
    ensures
        r@.len() == 2,
        r@[0]@ == "tensaku-edit"@,
        r@[1]@ == "pinta"@,
{
    let mut v: Vec<&'static str> = Vec::new();
    v.push("tensaku-edit");
    v.push("pinta");
    v
}

/// The orientation tag to write after rotating a file clockwise by
/// `degrees`, given the tag it carries now (none reads as 1).
pub fn exif_tag_after_rotation(current: Option<u32>, degrees: u32) -> (r: u32)
    ensures
        r == spec_compose_cw(
            match current {
                Some(t) => t as int,
                None => 1,
            },
            degrees as int,
        ),
        1 <= r <= 8,
{
    let tag = match current {
        Some(t) => t,
        None => 1,
    };
    compose_orientation_cw(tag, degrees)
}

/// Whether the name typed into the rename dialog asks for a rename: it is
/// not empty and differs from the file's current name.
pub fn rename_wanted(current_name: &str, new_name: &str) -> (r: bool)
    ensures
        r == (new_name@.len() > 0 && new_name@ != current_name@),
{
    let typed = chars_of(new_name);
    typed.len() > 0 && !eq_chars(&typed, current_name)
}

/// A rotation is saved as the remainder of its angle modulo 360, the way it
/// was shown: JPEG and TIFF files by their EXIF tag (pixels as the fallback),
/// HEIC, HEIF, SVG and JPEG XL not at all, every other file by its pixels;
/// mirrors pending beside it do not change that.
pub proof fn law_saved_angle_is_the_shown_angle(path: Seq<char>, degrees: int, fh: bool, fv: bool)
    requires
        degrees >= 0,
        degrees % 360 == 90 || degrees % 360 == 180 || degrees % 360 == 270,
    ensures
        ({
            let e = spec_extension(path);
            let d = (degrees % 360) as u32;
            let expected = if e == "jpg"@ || e == "jpeg"@ || e == "jpe"@ || e == "jfif"@ || e == "tif"@
                || e == "tiff"@ {
                SavePlan::ExifThenPixels(d)
            } else if e == "heic"@ || e == "heif"@ || e == "svg"@ || e == "jxl"@ {
                SavePlan::NoEncoder
            } else {
                SavePlan::Pixels(d)
            };
            &&& spec_save_plan(path, degrees) == expected
            &&& spec_transform_plan(path, degrees, fh, fv) == expected
        }),
{
}

/// Whenever a plan carries an angle, it is the pending angle modulo 360.
pub proof fn law_plan_angle_is_the_remainder(path: Seq<char>, degrees: int, fh: bool, fv: bool)
    requires
        degrees >= 0,
    ensures
        match spec_save_plan(path, degrees) {
            SavePlan::ExifThenPixels(a) => a == degrees % 360,
            SavePlan::Pixels(a) => a == degrees % 360,
            _ => true,
        },
        match spec_transform_plan(path, degrees, fh, fv) {
            SavePlan::ExifThenPixels(a) => a == degrees % 360,
            SavePlan::Pixels(a) => a == degrees % 360,
            _ => true,
        },
{
}

} // verus!
