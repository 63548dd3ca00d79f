use omarchy_imageview::app_state::{AppState, PendingSave, ScaleMode, ViewMode, ZOOM_ONE};
use omarchy_imageview::folder::SortMode;

fn paths(dir: &str, count: usize) -> Vec<String> {
    (1..=count).map(|i| format!("{dir}/photo{i}.jpg")).collect()
}

fn loaded(dir: &str, count: usize) -> AppState {
    let mut state = AppState::new("/tmp/test-config".to_string());
    state.load_folder(dir, paths(dir, count), None);
    state
}

#[test]
fn test_initial_state() {
    let state = AppState::new("/tmp/test-state".to_string());
    assert!(state.current_folder.is_none());
    assert!(state.files.is_empty());
    assert_eq!(state.index, 0);
    assert_eq!(state.view_mode, ViewMode::Grid);
    assert!(state.zoom_fit);
    assert_eq!(f64::from_bits(state.zoom_bits), 1.0);
    assert_eq!(state.zoom_bits, ZOOM_ONE);
}

#[test]
fn test_navigate_next() {
    let mut state = loaded("/tmp/test-nav", 10);
    assert_eq!(state.index, 0);
    state.navigate_next();
    assert_eq!(state.index, 1);
    state.navigate_next();
    assert_eq!(state.index, 2);
}

#[test]
fn test_navigate_prev() {
    let mut state = loaded("/tmp/test-prev", 10);
    state.index = 5;
    state.navigate_prev();
    assert_eq!(state.index, 4);
}

#[test]
fn navigation_wraps_at_both_ends() {
    let mut state = loaded("/tmp/test-wrap", 5);
    state.index = 4;
    state.navigate_next();
    assert_eq!(state.index, 0);
    state.navigate_prev();
    assert_eq!(state.index, 4);
}

#[test]
fn navigation_resets_the_view() {
    let mut state = loaded("/tmp/test-reset", 3);
    state.add_rotation(90);
    state.toggle_flip_h();
    state.zoom_fit = false;
    state.zoom_bits = 2.0f64.to_bits();
    state.scale_mode = ScaleMode::Actual;
    state.navigate_next();
    assert!(!state.is_dirty());
    assert!(state.zoom_fit);
    assert_eq!(state.zoom_bits, ZOOM_ONE);
    assert_eq!(state.scale_mode, ScaleMode::Fit);
}

#[test]
fn navigation_without_files_does_nothing() {
    let mut state = AppState::new("/tmp/x".to_string());
    state.zoom_fit = false;
    state.navigate_next();
    state.navigate_prev();
    state.navigate_to(3);
    assert_eq!(state.index, 0);
    assert!(!state.zoom_fit);
}

#[test]
fn navigate_to_clamps_to_the_last_image() {
    let mut state = loaded("/tmp/test-to", 5);
    state.navigate_to(2);
    assert_eq!(state.index, 2);
    state.navigate_to(99);
    assert_eq!(state.index, 4);
}

#[test]
fn test_current_file() {
    let state = loaded("/tmp/test-cf", 5);
    assert!(state.current_file().is_some());
    assert_eq!(state.current_file(), Some("/tmp/test-cf/photo1.jpg"));
    let empty = AppState::new("/tmp/x".to_string());
    assert_eq!(empty.current_file(), None);
}

#[test]
fn test_load_folder_with_target() {
    let images = paths("/tmp/test-target", 10);
    let mut state = AppState::new("/tmp/test-target-config".to_string());
    state.load_folder("/tmp/test-target", images.clone(), Some(&images[4]));
    assert_eq!(state.index, 4);
    state.load_folder("/tmp/test-target", images, Some("/elsewhere.jpg"));
    assert_eq!(state.index, 0);
    assert_eq!(state.last_folder.as_deref(), Some("/tmp/test-target"));
}

#[test]
fn test_persist_and_restore() {
    let mut state = AppState::new("/tmp/cfg".to_string());
    state.load_folder("/tmp/pics", paths("/tmp/pics", 5), None);
    let saved = state.save();

    let mut state2 = AppState::new("/tmp/cfg".to_string());
    state2.restore(&saved);
    assert_eq!(state2.last_folder, Some("/tmp/pics".to_string()));
}

#[test]
fn saved_text_and_restored_settings() {
    let mut state = AppState::new("/tmp/cfg".to_string());
    assert_eq!(state.save(), "sort = \"date\"\nfilmstrip = true\n");
    state.set_sort(SortMode::Name);
    state.toggle_filmstrip();
    let saved = state.save();
    assert_eq!(saved, "sort = \"name\"\nfilmstrip = false\n");
    let mut other = AppState::new("/tmp/cfg".to_string());
    other.restore(&saved);
    assert_eq!(other.sort, SortMode::Name);
    assert!(!other.filmstrip_visible);
    assert_eq!(other.last_folder, None);
}

#[test]
fn restore_ignores_wrong_types_and_bad_text() {
    let mut state = AppState::new("/tmp/cfg".to_string());
    state.restore("sort = 3\nfilmstrip = \"no\"\nlast_folder = true\n");
    assert_eq!(state.sort, SortMode::Date);
    assert!(state.filmstrip_visible);
    assert_eq!(state.last_folder, None);
    state.restore("][ not toml");
    assert_eq!(state.sort, SortMode::Date);
    state.restore("sort = \"NAME\"\n");
    assert_eq!(state.sort, SortMode::Name);
    state.restore("sort = \"whatever\"\n");
    assert_eq!(state.sort, SortMode::Date);
}

#[test]
fn state_file_is_in_the_config_dir() {
    let state = AppState::new("/home/u/.config/omarchy-imageview".to_string());
    assert_eq!(state.state_file(), "/home/u/.config/omarchy-imageview/state.toml");
}

#[test]
fn test_remove_file() {
    let mut state = loaded("/tmp/test-rm", 10);
    let count = state.files.len();
    let removed = state.files[3].clone();
    state.remove_file(&removed);
    assert_eq!(state.files.len(), count - 1);
    assert!(!state.files.contains(&removed));
}

#[test]
fn removal_keeps_the_shown_image() {
    let mut state = loaded("/tmp/test-rm2", 5);
    state.index = 3;
    let shown = state.files[3].clone();
    let before = state.files[1].clone();
    state.remove_file(&before);
    assert_eq!(state.index, 2);
    assert_eq!(state.current_file(), Some(shown.as_str()));
    let last = state.files[3].clone();
    state.index = 3;
    state.remove_file(&last);
    assert_eq!(state.index, 2);
    state.remove_file("/not/there.jpg");
    assert_eq!(state.files.len(), 3);
}

#[test]
fn removing_the_only_file_leaves_index_zero() {
    let mut state = loaded("/tmp/test-one", 1);
    let only = state.files[0].clone();
    state.remove_file(&only);
    assert!(state.files.is_empty());
    assert_eq!(state.index, 0);
}

#[test]
fn pending_edits() {
    let mut state = loaded("/tmp/test-edit", 2);
    assert!(!state.is_dirty());
    state.add_rotation(270);
    state.add_rotation(180);
    assert_eq!(state.pending_rotation, 90);
    assert!(state.is_dirty());
    state.add_rotation(270);
    assert!(!state.is_dirty());
    state.toggle_flip_v();
    assert!(state.is_dirty());
    state.toggle_flip_v();
    assert!(!state.is_dirty());
}

#[test]
fn scale_mode_cycles() {
    let mut state = AppState::new("/tmp/x".to_string());
    assert_eq!(state.cycle_scale_mode(), ScaleMode::Fill);
    assert!(state.zoom_fit);
    assert_eq!(state.cycle_scale_mode(), ScaleMode::Actual);
    assert!(!state.zoom_fit);
    assert_eq!(state.cycle_scale_mode(), ScaleMode::Fit);
    assert_eq!(ScaleMode::Actual.label(), "1:1");
    assert_eq!(ScaleMode::Fit.next(), ScaleMode::Fill);
}

#[test]
fn slideshow_step_stays_between_0_and_30() {
    let mut state = AppState::new("/tmp/x".to_string());
    assert_eq!(state.bump_slideshow(1), 1);
    assert_eq!(state.bump_slideshow(-5), 0);
    assert_eq!(state.bump_slideshow(100), 30);
    assert_eq!(state.bump_slideshow(1), 30);
    state.slideshow_secs = u32::MAX;
    assert_eq!(state.bump_slideshow(2), 1);
}

#[test]
fn set_sort_reports_a_change() {
    let mut state = AppState::new("/tmp/x".to_string());
    assert!(!state.set_sort(SortMode::Date));
    assert!(state.set_sort(SortMode::Name));
    assert_eq!(state.sort, SortMode::Name);
}

#[test]
fn filmstrip_toggles() {
    let mut state = AppState::new("/tmp/x".to_string());
    assert!(!state.toggle_filmstrip());
    assert!(state.toggle_filmstrip());
}

#[test]
fn paths_are_compared_by_component() {
    let mut state = loaded("/tmp/x", 3);
    state.remove_file("/tmp/x//photo1.jpg");
    assert_eq!(state.files, vec!["/tmp/x/photo2.jpg".to_string(), "/tmp/x/photo3.jpg".to_string()]);
    state.remove_file("/tmp/./x/photo3.jpg/");
    assert_eq!(state.files, vec!["/tmp/x/photo2.jpg".to_string()]);
    state.remove_file("tmp/x/photo2.jpg");
    assert_eq!(state.files.len(), 1);

    let files = vec!["a/b.png".to_string(), "./a/c.png".to_string()];
    state.load_folder("a", files.clone(), Some("./a//c.png"));
    assert_eq!(state.index, 1);
    state.load_folder("a", files.clone(), Some("a//b.png/"));
    assert_eq!(state.index, 0);
    state.load_folder("a", files.clone(), Some("./a/./c.png"));
    assert_eq!(state.index, 1);
    // A leading `.` is a component of its own, as `Path` has it.
    state.load_folder("a", files, Some("a/c.png"));
    assert_eq!(state.index, 0);
}

#[test]
fn pending_edits_are_saved_then_cleared() {
    let mut empty = AppState::new("/tmp/test-config".to_string());
    assert_eq!(empty.pending_save(), PendingSave::NoImage);
    assert!(!empty.finish_save(false));

    let mut state = loaded("/tmp/s", 2);
    assert_eq!(state.pending_save(), PendingSave::Nothing);
    state.pending_rotation = 90;
    state.pending_flip_v = true;
    assert_eq!(
        state.pending_save(),
        PendingSave::Write { path: "/tmp/s/photo1.jpg".to_string(), degrees: 90, flip_h: false, flip_v: true }
    );
    assert!(!state.finish_save(false));
    assert_eq!((state.pending_rotation, state.pending_flip_v), (90, true));
    assert!(state.finish_save(true));
    assert_eq!((state.pending_rotation, state.pending_flip_h, state.pending_flip_v), (0, false, false));
    assert_eq!(state.pending_save(), PendingSave::Nothing);
}

#[test]
fn saved_settings_come_back_whatever_they_were() {
    let mut source = AppState::new("/tmp/test-config".to_string());
    source.load_folder("/home/jürgen/Bilder 2024", vec![], None);
    source.set_sort(SortMode::Name);
    source.toggle_filmstrip();
    let text = source.save();

    let mut target = AppState::new("/tmp/other".to_string());
    target.restore(&text);
    assert_eq!(target.last_folder.as_deref(), Some("/home/jürgen/Bilder 2024"));
    assert_eq!(target.sort, SortMode::Name);
    assert_eq!(target.filmstrip_visible, source.filmstrip_visible);

    let blank = AppState::new("/tmp/blank".to_string());
    target.restore(&blank.save());
    assert_eq!(target.last_folder.as_deref(), Some("/home/jürgen/Bilder 2024"));
    assert_eq!(target.sort, blank.sort);
    assert_eq!(target.filmstrip_visible, blank.filmstrip_visible);
}

#[test]
fn folder_with_a_tab_comes_back() {
    let mut source = AppState::new("/tmp/test-config".to_string());
    source.load_folder("/tmp/tab\there", vec![], None);
    let mut target = AppState::new("/tmp/other".to_string());
    target.restore(&source.save());
    assert_eq!(target.last_folder.as_deref(), Some("/tmp/tab\there"));
}
