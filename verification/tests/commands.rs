use omarchy_imageview::commands::{key_command, slideshow_tick, toolbar_command, Command};
use omarchy_imageview::folder::SortMode;

#[test]
fn escape_goes_back_to_the_grid_then_quits() {
    assert_eq!(key_command("Escape", false, false, true), Command::ShowGrid);
    assert_eq!(key_command("Escape", false, false, false), Command::Quit);
}

#[test]
fn grid_keys() {
    assert_eq!(key_command("q", false, false, false), Command::Quit);
    assert_eq!(key_command("q", true, false, false), Command::Unhandled);
    assert_eq!(key_command("g", false, false, false), Command::ShowGrid);
    assert_eq!(key_command("F11", false, false, false), Command::ToggleFullscreen);
    assert_eq!(key_command("f", false, false, true), Command::ToggleFullscreen);
    assert_eq!(key_command("i", true, false, false), Command::Consumed);
    assert_eq!(key_command("Right", false, false, false), Command::Unhandled);
    assert_eq!(key_command("Delete", false, false, false), Command::Unhandled);
}

#[test]
fn navigation_keys_in_the_single_view() {
    assert_eq!(key_command("Right", false, false, true), Command::Next);
    assert_eq!(key_command("Down", false, false, true), Command::Next);
    assert_eq!(key_command("Left", false, false, true), Command::Prev);
    assert_eq!(key_command("Up", false, false, true), Command::Prev);
    assert_eq!(key_command("BackSpace", false, false, true), Command::Prev);
    assert_eq!(key_command("space", false, false, true), Command::PauseOrNext);
    assert_eq!(key_command("Home", false, false, true), Command::First);
    assert_eq!(key_command("End", false, false, true), Command::Last);
    assert_eq!(key_command("Right", true, false, true), Command::Unhandled);
}

#[test]
fn zoom_keys_with_or_without_ctrl() {
    for ctrl in [false, true] {
        assert_eq!(key_command("plus", ctrl, false, true), Command::ZoomIn);
        assert_eq!(key_command("equal", ctrl, false, true), Command::ZoomIn);
        assert_eq!(key_command("minus", ctrl, false, true), Command::ZoomOut);
        assert_eq!(key_command("0", ctrl, false, true), Command::ZoomFit);
        assert_eq!(key_command("1", ctrl, false, true), Command::ZoomActual);
    }
    assert_eq!(key_command("r", false, false, true), Command::ResetZoom);
    assert_eq!(key_command("s", false, false, true), Command::CycleScale);
}

#[test]
fn view_keys() {
    assert_eq!(key_command("t", false, false, true), Command::Slideshow(1));
    assert_eq!(key_command("T", false, true, true), Command::Slideshow(-1));
    assert_eq!(key_command("h", false, false, true), Command::FlipH);
    assert_eq!(key_command("v", false, false, true), Command::FlipV);
    assert_eq!(key_command("u", false, false, true), Command::ToggleNearest);
    assert_eq!(key_command("i", true, false, true), Command::ToggleInfo);
}

#[test]
fn ctrl_keys_in_the_single_view() {
    assert_eq!(key_command("r", true, false, true), Command::Rotate(90));
    assert_eq!(key_command("R", true, true, true), Command::Rotate(270));
    assert_eq!(key_command("s", true, false, true), Command::Save);
    assert_eq!(key_command("X", true, true, true), Command::Trash);
    assert_eq!(key_command("x", true, false, true), Command::TrashAndQuit);
    assert_eq!(key_command("c", true, false, true), Command::CopyImage);
    assert_eq!(key_command("C", true, true, true), Command::CopyPath);
    assert_eq!(key_command("w", true, false, true), Command::Wallpaper);
    assert_eq!(key_command("e", true, false, true), Command::Edit);
    assert_eq!(key_command("p", true, false, true), Command::Print);
    assert_eq!(key_command("m", true, false, true), Command::MoveToFolder);
    assert_eq!(key_command("M", true, true, true), Command::CopyToFolder);
    assert_eq!(key_command("z", true, false, true), Command::Unhandled);
    assert_eq!(key_command("S", true, true, true), Command::Unhandled);
    assert_eq!(key_command("I", true, true, true), Command::Unhandled);
    assert_eq!(key_command("W", true, true, true), Command::Unhandled);
    assert_eq!(key_command("E", true, true, true), Command::Unhandled);
    assert_eq!(key_command("P", true, true, true), Command::Unhandled);
    assert_eq!(key_command("Delete", false, false, true), Command::Trash);
    assert_eq!(key_command("F2", false, false, true), Command::Rename);
}

#[test]
fn toolbar_buttons() {
    assert_eq!(toolbar_command("info"), Command::ToggleInfo);
    assert_eq!(toolbar_command("trash"), Command::Trash);
    assert_eq!(toolbar_command("rotate"), Command::Rotate(90));
    assert_eq!(toolbar_command("save"), Command::Save);
    assert_eq!(toolbar_command("copy"), Command::CopyImage);
    assert_eq!(toolbar_command("filmstrip"), Command::ToggleFilmstrip);
    assert_eq!(toolbar_command("sort-date"), Command::SortBy(SortMode::Date));
    assert_eq!(toolbar_command("sort-name"), Command::SortBy(SortMode::Name));
    assert_eq!(toolbar_command("sort"), Command::Unhandled);
}

#[test]
fn slideshow_steps_every_few_seconds() {
    assert_eq!(slideshow_tick(0, 0, true), (0, false));
    assert_eq!(slideshow_tick(5, 3, false), (0, false));
    assert_eq!(slideshow_tick(0, 3, true), (1, false));
    assert_eq!(slideshow_tick(1, 3, true), (2, false));
    assert_eq!(slideshow_tick(2, 3, true), (0, true));
    assert_eq!(slideshow_tick(0, 1, true), (0, true));
    assert_eq!(slideshow_tick(u32::MAX, 30, true), (0, true));
}
