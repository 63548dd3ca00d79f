//! What a key press or a toolbar button asks the viewer to do.

use vstd::prelude::*;
use crate::folder::SortMode;
use crate::text::{ascii_lower_char, chars_of, eq_chars, to_ascii_lower_char};

verus! {

/// A request to the viewer.
#[derive(Debug, Clone, Copy, PartialEq, Eq, Structural)]
pub enum Command {
    /// The key is not the viewer's: let it go on to other handlers.
    Unhandled,
    /// The key is the viewer's, and nothing is to be done.
    Consumed,
    Quit,
    ShowGrid,
    ToggleFullscreen,
    ToggleInfo,
    Next,
    Prev,
    /// Pause or resume an animation; otherwise the next image.
    PauseOrNext,
    First,
    Last,
    ZoomIn,
    ZoomOut,
    ZoomFit,
    ZoomActual,
    ResetZoom,
    CycleScale,
    /// Change the slideshow step by this many seconds.
    Slideshow(i32),
    FlipH,
    FlipV,
    ToggleNearest,
    Trash,
    TrashAndQuit,
    /// Rotate the shown image clockwise by this many degrees.
    Rotate(u32),
    Save,
    CopyImage,
    CopyPath,
    Wallpaper,
    Edit,
    Print,
    Rename,
    MoveToFolder,
    CopyToFolder,
    SortBy(SortMode),
    ToggleFilmstrip,
}

/// A one-letter key name that is `c` in either case (with Shift held, a
/// letter's name is upper case).
pub open spec fn letter(key: Seq<char>, c: char) -> bool {
    key.len() == 1 && ascii_lower_char(key[0]) == c
}

/// The key bindings. `key` is the key's name, `single` whether an image is
/// shown on its own. With Shift held a letter's name is upper case, so the
/// Ctrl bindings that have a Shift variant (R, X, C, M) take either case and
/// the others only the lower-case name.
pub open spec fn spec_key_command(key: Seq<char>, ctrl: bool, shift: bool, single: bool) -> Command {
    if key == "Escape"@ {
        if single { Command::ShowGrid } else { Command::Quit }
    } else if key == "q"@ && !ctrl {
        Command::Quit
    } else if key == "BackSpace"@ && single {
        Command::Prev
    } else if key == "g"@ && !ctrl {
        Command::ShowGrid
    } else if (key == "F11"@ || key == "f"@) && !ctrl {
        Command::ToggleFullscreen
    } else if key == "i"@ && ctrl {
        if single { Command::ToggleInfo } else { Command::Consumed }
    } else if !single {
        Command::Unhandled
    } else if (key == "Right"@ || key == "Down"@) && !ctrl {
        Command::Next
    } else if (key == "Left"@ || key == "Up"@) && !ctrl {
        Command::Prev
    } else if key == "space"@ {
        Command::PauseOrNext
    } else if key == "Home"@ {
        Command::First
    } else if key == "End"@ {
        Command::Last
    } else if key == "plus"@ || key == "equal"@ {
        Command::ZoomIn
    } else if key == "minus"@ {
        Command::ZoomOut
    } else if key == "0"@ {
        Command::ZoomFit
    } else if key == "1"@ {
        Command::ZoomActual
    } else if key == "Delete"@ {
        Command::Trash
    } else if key == "F2"@ {
        Command::Rename
    } else if ctrl {
        if letter(key, 'r') {
            Command::Rotate(if shift { 270 } else { 90 })
        } else if key == "s"@ {
            Command::Save
        } else if letter(key, 'x') {
            if shift { Command::Trash } else { Command::TrashAndQuit }
        } else if letter(key, 'c') {
            if shift { Command::CopyPath } else { Command::CopyImage }
        } else if key == "w"@ {
            Command::Wallpaper
        } else if key == "e"@ {
            Command::Edit
        } else if key == "p"@ {
            Command::Print
        } else if letter(key, 'm') {
            if shift { Command::CopyToFolder } else { Command::MoveToFolder }
        } else {
            Command::Unhandled
        }
    } else if key == "r"@ {
        Command::ResetZoom
    } else if key == "s"@ {
        Command::CycleScale
    } else if key == "t"@ {
        Command::Slideshow(1)
    } else if key == "T"@ {
        Command::Slideshow(-1i32)
    } else if key == "h"@ {
        Command::FlipH
    } else if key == "v"@ {
        Command::FlipV
    } else if key == "u"@ {
        Command::ToggleNearest
    } else {
        Command::Unhandled
    }
}

fn is_letter(k: &Vec<char>, c: char) -> (r: bool)
    ensures
        r == letter(k@, c),
{
    k.len() == 1 && to_ascii_lower_char(k[0]) == c
}

/// What a key press asks for (see `spec_key_command`).
pub fn key_command(key: &str, ctrl: bool, shift: bool, single: bool) -> (r: Command)
    ensures
        r == spec_key_command(key@, ctrl, shift, single),
{
    let k = chars_of(key);
    if eq_chars(&k, "Escape") {
        if single { Command::ShowGrid } else { Command::Quit }
    } else if eq_chars(&k, "q") && !ctrl {
        Command::Quit
    } else if eq_chars(&k, "BackSpace") && single {
        Command::Prev
    } else if eq_chars(&k, "g") && !ctrl {
        Command::ShowGrid
    } else if (eq_chars(&k, "F11") || eq_chars(&k, "f")) && !ctrl {
        Command::ToggleFullscreen
    } else if eq_chars(&k, "i") && ctrl {
        if single { Command::ToggleInfo } else { Command::Consumed }
    } else if !single {
        Command::Unhandled
    } else if (eq_chars(&k, "Right") || eq_chars(&k, "Down")) && !ctrl {
        Command::Next
    } else if (eq_chars(&k, "Left") || eq_chars(&k, "Up")) && !ctrl {
        Command::Prev
    } else if eq_chars(&k, "space") {
        Command::PauseOrNext
    } else if eq_chars(&k, "Home") {
        Command::First
    } else if eq_chars(&k, "End") {
        Command::Last
    } else if eq_chars(&k, "plus") || eq_chars(&k, "equal") {
        Command::ZoomIn
    } else if eq_chars(&k, "minus") {
        Command::ZoomOut
    } else if eq_chars(&k, "0") {
        Command::ZoomFit
    } else if eq_chars(&k, "1") {
        Command::ZoomActual
    } else if eq_chars(&k, "Delete") {
        Command::Trash
    } else if eq_chars(&k, "F2") {
        Command::Rename
    } else if ctrl {
        if is_letter(&k, 'r') {
            Command::Rotate(if shift { 270 } else { 90 })
        } else if eq_chars(&k, "s") {
            Command::Save
        } else if is_letter(&k, 'x') {
            if shift { Command::Trash } else { Command::TrashAndQuit }
        } else if is_letter(&k, 'c') {
            if shift { Command::CopyPath } else { Command::CopyImage }
        } else if eq_chars(&k, "w") {
            Command::Wallpaper
        } else if eq_chars(&k, "e") {
            Command::Edit
        } else if eq_chars(&k, "p") {
            Command::Print
        } else if is_letter(&k, 'm') {
            if shift { Command::CopyToFolder } else { Command::MoveToFolder }
        } else {
            Command::Unhandled
        }
    } else if eq_chars(&k, "r") {
        Command::ResetZoom
    } else if eq_chars(&k, "s") {
        Command::CycleScale
    } else if eq_chars(&k, "t") {
        Command::Slideshow(1)
    } else if eq_chars(&k, "T") {
        Command::Slideshow(-1)
    } else if eq_chars(&k, "h") {
        Command::FlipH
    } else if eq_chars(&k, "v") {
        Command::FlipV
    } else if eq_chars(&k, "u") {
        Command::ToggleNearest
    } else {
        Command::Unhandled
    }
}

pub open spec fn spec_toolbar_command(action: Seq<char>) -> Command {
    if action == "info"@ {
        Command::ToggleInfo
    } else if action == "trash"@ {
        Command::Trash
    } else if action == "rotate"@ {
        Command::Rotate(90)
    } else if action == "save"@ {
        Command::Save
    } else if action == "copy"@ {
        Command::CopyImage
    } else if action == "filmstrip"@ {
        Command::ToggleFilmstrip
    } else if action == "sort-date"@ {
        Command::SortBy(SortMode::Date)
    } else if action == "sort-name"@ {
        Command::SortBy(SortMode::Name)
    } else {
        Command::Unhandled
    }
}

/// What a toolbar button (named by its action) asks for.
pub fn toolbar_command(action: &str) -> (r: Command)
    ensures
        r == spec_toolbar_command(action@),
{
    let a = chars_of(action);
    if eq_chars(&a, "info") {
        Command::ToggleInfo
    } else if eq_chars(&a, "trash") {
        Command::Trash
    } else if eq_chars(&a, "rotate") {
        Command::Rotate(90)
    } else if eq_chars(&a, "save") {
        Command::Save
    } else if eq_chars(&a, "copy") {
        Command::CopyImage
    } else if eq_chars(&a, "filmstrip") {
        Command::ToggleFilmstrip
    } else if eq_chars(&a, "sort-date") {
        Command::SortBy(SortMode::Date)
    } else if eq_chars(&a, "sort-name") {
        Command::SortBy(SortMode::Name)
    } else {
        Command::Unhandled
    }
}

/// One second of the slideshow clock: `elapsed` seconds have passed since
/// the last step, the step is `secs` seconds (0 is off) and `single` says
/// whether an image is shown on its own. Gives the new count and whether to
/// move on to the next image now.
pub fn slideshow_tick(elapsed: u32, secs: u32, single: bool) -> (r: (u32, bool))
    ensures
        r == (if secs == 0 || !single {
            (0u32, false)
        } else if elapsed + 1 >= secs {
            (0u32, true)
        } else {
            ((elapsed + 1) as u32, false)
        }),
{
    if secs == 0 || !single {
        (0, false)
    } else if elapsed >= secs - 1 {
        (0, true)
    } else {
        (elapsed + 1, false)
    }
}

/// Keys that work the same in the grid and in the single view: without Ctrl,
/// `g` goes back to the grid, `q` quits, `f` and `F11` toggle full screen;
/// `Escape` leaves the single view for the grid, and quits from the grid.
pub proof fn law_keys_of_both_views(shift: bool, single: bool)
    ensures
        spec_key_command("g"@, false, shift, single) == Command::ShowGrid,
        spec_key_command("q"@, false, shift, single) == Command::Quit,
        spec_key_command("f"@, false, shift, single) == Command::ToggleFullscreen,
        spec_key_command("F11"@, false, shift, single) == Command::ToggleFullscreen,
        spec_key_command("Escape"@, false, shift, single) == if single {
            Command::ShowGrid
        } else {
            Command::Quit
        },
{
    reveal_strlit("g");
    reveal_strlit("q");
    reveal_strlit("f");
    reveal_strlit("F11");
    reveal_strlit("Escape");
    reveal_strlit("BackSpace");
    assert("g"@ != "Escape"@ && "g"@ != "q"@ && "g"@ != "BackSpace"@) by {
        assert("g"@[0] != "q"@[0]);
    }
    assert("q"@ != "Escape"@) by {
        assert("q"@.len() != "Escape"@.len());
    }
    assert("f"@ != "Escape"@ && "f"@ != "q"@ && "f"@ != "BackSpace"@ && "f"@ != "g"@) by {
        assert("f"@[0] != "q"@[0]);
        assert("f"@[0] != "g"@[0]);
    }
    assert("F11"@ != "Escape"@ && "F11"@ != "q"@ && "F11"@ != "BackSpace"@ && "F11"@ != "g"@) by {
        assert("F11"@.len() == 3);
        assert("Escape"@.len() == 6);
        assert("q"@.len() == 1);
        assert("g"@.len() == 1);
        assert("BackSpace"@.len() == 9);
    }
}

} // verus!
