//! The viewer's state: the folder's images, the current one, and the
//! unsaved edits and view settings that go with it.

use vstd::prelude::*;
use crate::folder::{law_sort_text_round_trip, spec_sort_as_str, spec_sort_parse, SortMode};
use crate::paths::{join, paths_equal, same_path, spec_join};
use crate::toml_data::{
    bare_key, entries_view, entry_line, find_entry, lookup, parse_toml, plain_text, simple_document,
    simple_entries, toml_entries, ScalarView, TomlScalar,
};

verus! {

/// What saving the unsaved edits of the current image takes.
#[derive(Debug, PartialEq, Eq)]
pub enum PendingSave {
    /// There is no current image.
    NoImage,
    /// No edit is pending: there is nothing to write.
    Nothing,
    /// Write these edits into the file at `path`.
    Write { path: String, degrees: u32, flip_h: bool, flip_v: bool },
}

#[derive(Debug, Clone, Copy, PartialEq, Eq, Structural)]
pub enum ViewMode {
    Grid,
    Single,
}

/// Named view of the current image. `s` cycles these; +/- leave them for a custom zoom.
#[derive(Debug, Clone, Copy, PartialEq, Eq, Structural)]
pub enum ScaleMode {
    /// Scale up or down to fit.
    Fit,
    /// Scale and crop to fill.
    Fill,
    /// One image pixel per screen pixel.
    Actual,
}

pub open spec fn spec_scale_next(m: ScaleMode) -> ScaleMode {
    match m {
        ScaleMode::Fit => ScaleMode::Fill,
        ScaleMode::Fill => ScaleMode::Actual,
        ScaleMode::Actual => ScaleMode::Fit,
    }
}

impl ScaleMode {
    pub fn next(self) -> (r: Self)
        ensures
            r == spec_scale_next(self),
    {
        match self {
            Self::Fit => Self::Fill,
            Self::Fill => Self::Actual,
            Self::Actual => Self::Fit,
        }
    }

    pub fn label(self) -> (r: &'static str)
        ensures
            r@ == match self {
                ScaleMode::Fit => "Fit"@,
                ScaleMode::Fill => "Fill"@,
                ScaleMode::Actual => "1:1"@,
            },
    {
        match self {
            Self::Fit => "Fit",
            Self::Fill => "Fill",
            Self::Actual => "1:1",
        }
    }
}

/// Cycling the scale mode three times gives back the mode.
pub proof fn law_scale_cycle(m: ScaleMode)
    ensures
        spec_scale_next(spec_scale_next(spec_scale_next(m))) == m,
        spec_scale_next(m) != m,
{
}

/// The IEEE-754 bit pattern of the zoom factor 1.0. The state keeps the zoom
/// factor as its bits: the library only ever resets it, the view scales it.
pub const ZOOM_ONE: u64 = 0x3FF0_0000_0000_0000;

pub struct AppState {
    pub current_folder: Option<String>,
    pub files: Vec<String>,
    pub index: usize,
    pub view_mode: ViewMode,
    pub zoom_fit: bool,
    /// Bits of the `f64` zoom factor (`f64::to_bits`).
    pub zoom_bits: u64,
    pub last_folder: Option<String>,
    /// Unsaved clockwise rotation applied on screen (0, 90, 180, 270).
    pub pending_rotation: u32,
    pub pending_flip_h: bool,
    pub pending_flip_v: bool,
    pub sort: SortMode,
    pub scale_mode: ScaleMode,
    /// Slideshow step in seconds. 0 = off.
    pub slideshow_secs: u32,
    pub nearest_neighbor: bool,
    /// Filmstrip under the picture. User-toggled; remembered.
    pub filmstrip_visible: bool,
    /// Directory the state file is kept in.
    pub config_dir: String,
}

pub open spec fn opt_view(o: Option<String>) -> Option<Seq<char>> {
    match o {
        Some(s) => Some(s@),
        None => None,
    }
}

pub open spec fn paths_view(v: Seq<String>) -> Seq<Seq<char>> {
    v.map_values(|s: String| s@)
}

/// Index of the first path that names the same file as `t` (compared
/// component by component), or `None`.
pub open spec fn first_index(s: Seq<Seq<char>>, t: Seq<char>) -> Option<int>
    decreases s.len(),
{
    if s.len() == 0 {
        None
    } else if same_path(s[0], t) {
        Some(0)
    } else {
        match first_index(s.drop_first(), t) {
            Some(i) => Some(i + 1),
            None => None,
        }
    }
}

/// Clockwise next image, wrapping to the first.
pub open spec fn next_index(i: int, n: int) -> int {
    (i + 1) % n
}

/// Previous image, wrapping to the last.
pub open spec fn prev_index(i: int, n: int) -> int {
    if i == 0 {
        n - 1
    } else {
        i - 1
    }
}

/// Index after the file at `pos` is removed from `n` files.
pub open spec fn index_after_removal(index: int, pos: int, n: int) -> int {
    if index >= n - 1 {
        if n - 1 == 0 {
            0
        } else {
            n - 2
        }
    } else if index > pos {
        index - 1
    } else {
        index
    }
}

/// The text `save` writes for a remembered folder, sort mode and filmstrip setting.
pub open spec fn saved_text(last_folder: Option<Seq<char>>, sort: SortMode, filmstrip: bool) -> Seq<char> {
    let folder_line = match last_folder {
        Some(f) => "last_folder = \""@ + f + "\"\n"@,
        None => Seq::empty(),
    };
    folder_line + "sort = \""@ + spec_sort_as_str(sort) + "\"\n"@ + "filmstrip = "@ + (if filmstrip {
        "true"@
    } else {
        "false"@
    }) + "\n"@
}

/// The entries `save` writes, in order.
pub open spec fn saved_entries(last_folder: Option<Seq<char>>, sort: SortMode, filmstrip: bool) -> Seq<
    (Seq<char>, ScalarView),
> {
    let rest = seq![
        ("sort"@, ScalarView::Text(spec_sort_as_str(sort))),
        ("filmstrip"@, ScalarView::Flag(filmstrip)),
    ];
    match last_folder {
        Some(f) => seq![("last_folder"@, ScalarView::Text(f))] + rest,
        None => rest,
    }
}

/// The saved text is a document of simple entries (when the folder's path
/// needs no escape), whose keys give back what was saved.
proof fn lemma_saved_document(last_folder: Option<Seq<char>>, sort: SortMode, filmstrip: bool)
    requires
        last_folder matches Some(f) ==> plain_text(f),
    ensures
        saved_text(last_folder, sort, filmstrip) == simple_document(saved_entries(last_folder, sort, filmstrip)),
        simple_entries(saved_entries(last_folder, sort, filmstrip)),
        lookup(saved_entries(last_folder, sort, filmstrip), "last_folder"@) == match last_folder {
            Some(f) => Some(ScalarView::Text(f)),
            None => None::<ScalarView>,
        },
        lookup(saved_entries(last_folder, sort, filmstrip), "sort"@) == Some(
            ScalarView::Text(spec_sort_as_str(sort)),
        ),
        lookup(saved_entries(last_folder, sort, filmstrip), "filmstrip"@) == Some(ScalarView::Flag(filmstrip)),
{
    reveal_strlit("last_folder");
    reveal_strlit("sort");
    reveal_strlit("filmstrip");
    reveal_strlit("date");
    reveal_strlit("name");
    reveal_strlit("true");
    reveal_strlit("false");
    reveal_strlit(" = \"");
    reveal_strlit("\"\n");
    reveal_strlit(" = ");
    reveal_strlit("\n");
    reveal_strlit("last_folder = \"");
    reveal_strlit("sort = \"");
    reveal_strlit("filmstrip = ");
    let es = saved_entries(last_folder, sort, filmstrip);
    let sort_e = ("sort"@, ScalarView::Text(spec_sort_as_str(sort)));
    let film_e = ("filmstrip"@, ScalarView::Flag(filmstrip));
    let rest = seq![sort_e, film_e];
    let flag = if filmstrip {
        "true"@
    } else {
        "false"@
    };
    assert(entry_line(sort_e) =~= "sort = \""@ + spec_sort_as_str(sort) + "\"\n"@);
    assert(entry_line(film_e) =~= "filmstrip = "@ + flag + "\n"@);
    assert(rest.drop_first() =~= seq![film_e]);
    assert(seq![film_e].drop_first() =~= Seq::<(Seq<char>, ScalarView)>::empty());
    assert(seq![film_e][0] == film_e);
    assert(simple_document(Seq::<(Seq<char>, ScalarView)>::empty()) =~= Seq::<char>::empty());
    assert(simple_document(seq![film_e]) =~= entry_line(film_e));
    assert(simple_document(rest) =~= entry_line(sort_e) + entry_line(film_e));
    assert(bare_key("sort"@));
    assert(bare_key("filmstrip"@));
    assert(bare_key("last_folder"@));
    assert(plain_text(spec_sort_as_str(sort)));
    assert("sort"@ != "filmstrip"@);
    assert("last_folder"@ != "sort"@);
    assert("last_folder"@ != "filmstrip"@);
    match last_folder {
        Some(f) => {
            let folder_e = ("last_folder"@, ScalarView::Text(f));
            assert(entry_line(folder_e) =~= "last_folder = \""@ + f + "\"\n"@);
            assert(es.drop_first() =~= rest);
            assert(simple_document(es) =~= entry_line(folder_e) + simple_document(rest));
            assert(saved_text(last_folder, sort, filmstrip) =~= simple_document(es));
            assert(lookup(es, "sort"@) == lookup(rest, "sort"@));
            assert(lookup(es, "filmstrip"@) == lookup(rest, "filmstrip"@));
            assert(lookup(rest, "filmstrip"@) == lookup(seq![film_e], "filmstrip"@));
        },
        None => {
            assert(saved_text(last_folder, sort, filmstrip) =~= simple_document(es));
            assert(lookup(rest, "filmstrip"@) == lookup(seq![film_e], "filmstrip"@));
            assert(lookup(seq![film_e], "last_folder"@) == lookup(
                Seq::<(Seq<char>, ScalarView)>::empty(),
                "last_folder"@,
            ));
        },
    }
}

/// `after` holds the folder, the sort mode and the filmstrip setting that
/// were saved; with no folder saved, it keeps the folder `before` had.
pub open spec fn restored(
    before: AppState,
    after: AppState,
    last_folder: Option<Seq<char>>,
    sort: SortMode,
    filmstrip: bool,
) -> bool {
    &&& opt_view(after.last_folder) == match last_folder {
        Some(f) => Some(f),
        None => opt_view(before.last_folder),
    }
    &&& after.sort == sort
    &&& after.filmstrip_visible == filmstrip
}

/// The first index of `t`, when there is one, is a position holding a path
/// equal to `t` with no earlier position holding one.
pub proof fn lemma_first_index(s: Seq<Seq<char>>, t: Seq<char>)
    ensures
        match first_index(s, t) {
            Some(i) => 0 <= i < s.len() && same_path(s[i], t) && forall|j: int|
                0 <= j < i ==> !same_path(#[trigger] s[j], t),
            None => forall|j: int| 0 <= j < s.len() ==> !same_path(#[trigger] s[j], t),
        },
    decreases s.len(),
{
    if s.len() > 0 {
        lemma_first_index(s.drop_first(), t);
        if !same_path(s[0], t) {
            match first_index(s.drop_first(), t) {
                Some(i) => {
                    assert forall|j: int| 0 <= j < i + 1 implies !same_path(s[j], t) by {
                        if j > 0 {
                            assert(s[j] == s.drop_first()[j - 1]);
                        }
                    }
                },
                None => {
                    assert forall|j: int| 0 <= j < s.len() implies !same_path(s[j], t) by {
                        if j > 0 {
                            assert(s[j] == s.drop_first()[j - 1]);
                        }
                    }
                },
            }
        }
    }
}

/// A `u32` read as an `i32`, wrapping values above `i32::MAX`.
pub open spec fn wrapped_i32(x: u32) -> int {
    if x <= i32::MAX {
        x as int
    } else {
        x - 0x1_0000_0000
    }
}

/// A slideshow step kept within 0 to 30 seconds.
pub open spec fn clamp_step(x: int) -> int {
    if x < 0 {
        0
    } else if x > 30 {
        30
    } else {
        x
    }
}

fn position_of(files: &Vec<String>, target: &String) -> (r: Option<usize>)
    ensures
        match r {
            Some(i) => first_index(paths_view(files@), target@) == Some(i as int) && i < files@.len(),
            None => first_index(paths_view(files@), target@) is None,
        },
{
    proof {
        lemma_first_index(paths_view(files@), target@);
    }
    let mut i: usize = 0;
    assert(paths_view(files@).skip(0) =~= paths_view(files@));
    while i < files.len()
        invariant
            0 <= i <= files.len(),
            forall|j: int| 0 <= j < i ==> !same_path(#[trigger] files@[j]@, target@),
            match first_index(paths_view(files@), target@) {
                Some(k) => first_index(paths_view(files@).skip(i as int), target@) == Some(k - i),
                None => first_index(paths_view(files@).skip(i as int), target@) is None,
            },
        decreases files.len() - i,
    {
        let ghost rest = paths_view(files@).skip(i as int);
        assert(rest[0] == files@[i as int]@);
        assert(rest.drop_first() =~= paths_view(files@).skip(i + 1));
        if paths_equal(files[i].as_str(), target.as_str()) {
            return Some(i);
        }
        i = i + 1;
    }
    None
}

impl AppState {
    pub open spec fn paths(&self) -> Seq<Seq<char>> {
        paths_view(self.files@)
    }

    /// Navigation ends any zoom and unsaved edit of the previous image.
    pub open spec fn view_is_reset(&self) -> bool {
        &&& self.zoom_fit
        &&& self.zoom_bits == ZOOM_ONE
        &&& self.pending_rotation == 0
        &&& !self.pending_flip_h
        &&& !self.pending_flip_v
        &&& self.scale_mode == ScaleMode::Fit
    }

    /// Everything but the index and the reset view settings is kept.
    pub open spec fn same_except_view(&self, other: &Self) -> bool {
        &&& self.current_folder == other.current_folder
        &&& self.files == other.files
        &&& self.view_mode == other.view_mode
        &&& self.last_folder == other.last_folder
        &&& self.sort == other.sort
        &&& self.slideshow_secs == other.slideshow_secs
        &&& self.nearest_neighbor == other.nearest_neighbor
        &&& self.filmstrip_visible == other.filmstrip_visible
        &&& self.config_dir == other.config_dir
    }

    pub fn new(config_dir: String) -> (r: Self)
        ensures
            r.current_folder is None,
            r.files@.len() == 0,
            r.index == 0,
            r.view_mode == ViewMode::Grid,
            r.zoom_fit,
            r.zoom_bits == ZOOM_ONE,
            r.last_folder is None,
            r.pending_rotation == 0,
            !r.pending_flip_h,
            !r.pending_flip_v,
            r.sort == SortMode::Date,
            r.scale_mode == ScaleMode::Fit,
            r.slideshow_secs == 0,
            !r.nearest_neighbor,
            r.filmstrip_visible,
            r.config_dir@ == config_dir@,
    {
        AppState {
            current_folder: None,
            files: Vec::new(),
            index: 0,
            view_mode: ViewMode::Grid,
            zoom_fit: true,
            zoom_bits: ZOOM_ONE,
            last_folder: None,
            pending_rotation: 0,
            pending_flip_h: false,
            pending_flip_v: false,
            sort: SortMode::Date,
            scale_mode: ScaleMode::Fit,
            slideshow_secs: 0,
            nearest_neighbor: false,
            filmstrip_visible: true,
            config_dir,
        }
    }

    /// Where the state is saved: `state.toml` in the configuration directory.
    pub fn state_file(&self) -> (r: String)
        ensures
            r@ == spec_join(self.config_dir@, "state.toml"@),
    {
        join(self.config_dir.as_str(), "state.toml")
    }

    pub fn current_file(&self) -> (r: Option<&str>)
        ensures
            match r {
                Some(p) => self.index < self.files@.len() && p@ == self.files@[self.index as int]@,
                None => self.index >= self.files@.len(),
            },
    {
        if self.index < self.files.len() {
            Some(self.files[self.index].as_str())
        } else {
            None
        }
    }

    /// Show `folder`, whose images (already listed and ordered) are `files`,
    /// starting at `target_file` when it is among them.
    pub fn load_folder(&mut self, folder: &str, files: Vec<String>, target_file: Option<&str>)
        ensures
            opt_view(final(self).current_folder) == Some(folder@),
            opt_view(final(self).last_folder) == Some(folder@),
            final(self).files@ == files@,
            final(self).index == match target_file {
                Some(t) => match first_index(paths_view(files@), t@) {
                    Some(i) => i,
                    None => 0,
                },
                None => 0,
            },
            final(self).view_mode == old(self).view_mode,
            final(self).zoom_fit == old(self).zoom_fit,
            final(self).zoom_bits == old(self).zoom_bits,
            final(self).pending_rotation == old(self).pending_rotation,
            final(self).pending_flip_h == old(self).pending_flip_h,
            final(self).pending_flip_v == old(self).pending_flip_v,
            final(self).sort == old(self).sort,
            final(self).scale_mode == old(self).scale_mode,
            final(self).slideshow_secs == old(self).slideshow_secs,
            final(self).nearest_neighbor == old(self).nearest_neighbor,
            final(self).filmstrip_visible == old(self).filmstrip_visible,
            final(self).config_dir == old(self).config_dir,
    {
        self.current_folder = Some(folder.to_owned());
        self.last_folder = Some(folder.to_owned());
        self.files = files;
        self.index = match target_file {
            Some(t) => {
                let t = t.to_owned();
                match position_of(&self.files, &t) {
                    Some(pos) => pos,
                    None => 0,
                }
            },
            None => 0,
        };
    }

    fn reset_zoom(&mut self)
        ensures
            final(self).view_is_reset(),
            final(self).same_except_view(old(self)),
            final(self).index == old(self).index,
    {
        self.zoom_fit = true;
        self.zoom_bits = ZOOM_ONE;
        self.pending_rotation = 0;
        self.pending_flip_h = false;
        self.pending_flip_v = false;
        self.scale_mode = ScaleMode::Fit;
    }

    /// Next image, wrapping from the last to the first.
    pub fn navigate_next(&mut self)
        requires
            old(self).files@.len() == 0 || old(self).index < usize::MAX,
        ensures
            old(self).files@.len() == 0 ==> *final(self) == *old(self),
            old(self).files@.len() > 0 ==> {
                &&& final(self).index == next_index(old(self).index as int, old(self).files@.len() as int)
                &&& final(self).view_is_reset()
                &&& final(self).same_except_view(old(self))
            },
    {
        if self.files.len() == 0 {
            return;
        }
        self.index = (self.index + 1) % self.files.len();
        self.reset_zoom();
    }

    /// Previous image, wrapping from the first to the last.
    pub fn navigate_prev(&mut self)
        ensures
            old(self).files@.len() == 0 ==> *final(self) == *old(self),
            old(self).files@.len() > 0 ==> {
                &&& final(self).index == prev_index(old(self).index as int, old(self).files@.len() as int)
                &&& final(self).view_is_reset()
                &&& final(self).same_except_view(old(self))
            },
    {
        if self.files.len() == 0 {
            return;
        }
        self.index = if self.index == 0 {
            self.files.len() - 1
        } else {
            self.index - 1
        };
        self.reset_zoom();
    }

    /// Jump to `index`, clamped to the last image.
    pub fn navigate_to(&mut self, index: usize)
        ensures
            old(self).files@.len() == 0 ==> *final(self) == *old(self),
            old(self).files@.len() > 0 ==> {
                &&& final(self).index == if index < old(self).files@.len() {
                    index as int
                } else {
                    old(self).files@.len() - 1
                }
                &&& final(self).view_is_reset()
                &&& final(self).same_except_view(old(self))
            },
    {
        if self.files.len() > 0 {
            let last = self.files.len() - 1;
            self.index = if index < last { index } else { last };
            self.reset_zoom();
        }
    }

    pub fn add_rotation(&mut self, degrees: u32)
        requires
            old(self).pending_rotation + degrees <= u32::MAX,
        ensures
            *final(self) == (AppState {
                pending_rotation: ((old(self).pending_rotation + degrees) % 360) as u32,
                ..*old(self)
            }),
    {
        self.pending_rotation = (self.pending_rotation + degrees) % 360;
    }

    pub fn toggle_flip_h(&mut self)
        ensures
            *final(self) == (AppState { pending_flip_h: !old(self).pending_flip_h, ..*old(self) }),
    {
        self.pending_flip_h = !self.pending_flip_h;
    }

    pub fn toggle_flip_v(&mut self)
        ensures
            *final(self) == (AppState { pending_flip_v: !old(self).pending_flip_v, ..*old(self) }),
    {
        self.pending_flip_v = !self.pending_flip_v;
    }

    /// Whether the current image has unsaved rotation or flips.
    pub fn is_dirty(&self) -> (r: bool)
        ensures
            r == (self.pending_rotation != 0 || self.pending_flip_h || self.pending_flip_v),
    {
        self.pending_rotation != 0 || self.pending_flip_h || self.pending_flip_v
    }

    /// What saving the unsaved edits of the current image takes.
    pub fn pending_save(&self) -> (r: PendingSave)
        ensures
            match r {
                PendingSave::NoImage => self.index >= self.files@.len(),
                PendingSave::Nothing => {
                    &&& self.index < self.files@.len()
                    &&& self.pending_rotation == 0
                    &&& !self.pending_flip_h
                    &&& !self.pending_flip_v
                },
                PendingSave::Write { path, degrees, flip_h, flip_v } => {
                    &&& self.index < self.files@.len()
                    &&& path@ == self.files@[self.index as int]@
                    &&& degrees == self.pending_rotation
                    &&& flip_h == self.pending_flip_h
                    &&& flip_v == self.pending_flip_v
                    &&& (degrees != 0 || flip_h || flip_v)
                },
            },
    {
        match self.current_file() {
            None => PendingSave::NoImage,
            Some(p) => {
                if !self.is_dirty() {
                    PendingSave::Nothing
                } else {
                    PendingSave::Write {
                        path: p.to_owned(),
                        degrees: self.pending_rotation,
                        flip_h: self.pending_flip_h,
                        flip_v: self.pending_flip_v,
                    }
                }
            },
        }
    }

    /// Ends a save of the pending edits: once the file was written they are
    /// no longer pending. Returns whether the save succeeded.
    pub fn finish_save(&mut self, written: bool) -> (r: bool)
        ensures
            r == written,
            written ==> *final(self) == (AppState {
                pending_rotation: 0,
                pending_flip_h: false,
                pending_flip_v: false,
                ..*old(self)
            }),
            !written ==> *final(self) == *old(self),
    {
        if written {
            self.pending_rotation = 0;
            self.pending_flip_h = false;
            self.pending_flip_v = false;
        }
        written
    }

    pub fn cycle_scale_mode(&mut self) -> (r: ScaleMode)
        ensures
            r == spec_scale_next(old(self).scale_mode),
            *final(self) == (AppState {
                scale_mode: r,
                zoom_fit: r != ScaleMode::Actual,
                zoom_bits: ZOOM_ONE,
                ..*old(self)
            }),
    {
        self.scale_mode = self.scale_mode.next();
        self.zoom_fit = self.scale_mode != ScaleMode::Actual;
        self.zoom_bits = ZOOM_ONE;
        self.scale_mode
    }

    /// `t` / `T`: change the slideshow step by `delta` seconds, kept within
    /// 0 (off) to 30. The step is read as an `i32` (wrapping) before `delta`
    /// is added.
    pub fn bump_slideshow(&mut self, delta: i32) -> (r: u32)
        requires
            i32::MIN <= wrapped_i32(old(self).slideshow_secs) + delta <= i32::MAX,
        ensures
            r == clamp_step(wrapped_i32(old(self).slideshow_secs) + delta),
            *final(self) == (AppState { slideshow_secs: r, ..*old(self) }),
    {
        let secs: i64 = if self.slideshow_secs <= 0x7fff_ffff {
            self.slideshow_secs as i64
        } else {
            self.slideshow_secs as i64 - 0x1_0000_0000
        };
        let next: i64 = secs + delta as i64;
        self.slideshow_secs = if next < 0 {
            0
        } else if next > 30 {
            30
        } else {
            next as u32
        };
        self.slideshow_secs
    }

    /// Returns true if the mode changed.
    pub fn set_sort(&mut self, sort: SortMode) -> (r: bool)
        ensures
            r == (old(self).sort != sort),
            *final(self) == (AppState { sort, ..*old(self) }),
    {
        if self.sort == sort {
            return false;
        }
        self.sort = sort;
        true
    }

    /// Forget `path` (trashed or moved away). The index keeps pointing at the
    /// same image, or at the one that followed the removed current image.
    pub fn remove_file(&mut self, path: &str)
        ensures
            match first_index(old(self).paths(), path@) {
                Some(pos) => {
                    &&& final(self).files@ == old(self).files@.remove(pos)
                    &&& final(self).index == index_after_removal(
                        old(self).index as int,
                        pos,
                        old(self).files@.len() as int,
                    )
                },
                None => final(self).files == old(self).files && final(self).index == old(self).index,
            },
            *final(self) == (AppState { files: final(self).files, index: final(self).index, ..*old(self) }),
    {
        let target = path.to_owned();
        match position_of(&self.files, &target) {
            Some(pos) => {
                self.files.remove(pos);
                let n = self.files.len();
                if self.index >= n {
                    self.index = if n == 0 { 0 } else { n - 1 };
                } else if self.index > pos {
                    self.index = self.index - 1;
                }
            },
            None => {},
        }
    }

    /// The text of the saved state: the last folder (when there is one), the
    /// sort mode and whether the filmstrip shows.
    pub fn save(&self) -> (r: String)
        ensures
            r@ == saved_text(opt_view(self.last_folder), self.sort, self.filmstrip_visible),
    {
        let mut content = String::new();
        match &self.last_folder {
            Some(folder) => {
                content.append("last_folder = \"");
                content.append(folder.as_str());
                content.append("\"\n");
            },
            None => {},
        }
        content.append("sort = \"");
        content.append(self.sort.as_str());
        content.append("\"\n");
        content.append("filmstrip = ");
        if self.filmstrip_visible {
            content.append("true");
        } else {
            content.append("false");
        }
        content.append("\n");
        content
    }

    /// Take back the remembered folder, sort mode and filmstrip setting from
    /// the text of a saved state. Keys that are missing or of another type
    /// (and text that is not TOML at all) leave the setting as it is.
    pub fn restore(&mut self, content: &str)
        ensures
            match toml_entries(content@) {
                None => {
                    &&& opt_view(final(self).last_folder) == opt_view(old(self).last_folder)
                    &&& final(self).sort == old(self).sort
                    &&& final(self).filmstrip_visible == old(self).filmstrip_visible
                },
                Some(es) => {
                    &&& opt_view(final(self).last_folder) == match lookup(es, "last_folder"@) {
                        Some(ScalarView::Text(s)) => Some(s),
                        _ => opt_view(old(self).last_folder),
                    }
                    &&& final(self).sort == match lookup(es, "sort"@) {
                        Some(ScalarView::Text(s)) => spec_sort_parse(s),
                        _ => old(self).sort,
                    }
                    &&& final(self).filmstrip_visible == match lookup(es, "filmstrip"@) {
                        Some(ScalarView::Flag(b)) => b,
                        _ => old(self).filmstrip_visible,
                    }
                },
            },
            *final(self) == (AppState {
                last_folder: final(self).last_folder,
                sort: final(self).sort,
                filmstrip_visible: final(self).filmstrip_visible,
                ..*old(self)
            }),
            forall|f: Option<Seq<char>>, sort: SortMode, filmstrip: bool|
                (f matches Some(t) ==> plain_text(t)) && #[trigger] saved_text(f, sort, filmstrip)
                    == content@ ==> restored(*old(self), *final(self), f, sort, filmstrip),
    {
        let entries = match parse_toml(content) {
            Some(es) => es,
            None => {
                proof {
                    assert forall|f: Option<Seq<char>>, sort: SortMode, filmstrip: bool|
                        (f matches Some(t) ==> plain_text(t)) && #[trigger] saved_text(f, sort, filmstrip)
                            == content@ implies false by {
                        lemma_saved_document(f, sort, filmstrip);
                    }
                }
                return;
            },
        };
        let ghost start = *self;
        match find_entry(&entries, "last_folder") {
            Some(TomlScalar::Text(s)) => {
                self.last_folder = Some(s.clone());
            },
            _ => {},
        }
        match find_entry(&entries, "sort") {
            Some(TomlScalar::Text(s)) => {
                self.sort = SortMode::parse(s.as_str());
            },
            _ => {},
        }
        match find_entry(&entries, "filmstrip") {
            Some(TomlScalar::Flag(b)) => {
                self.filmstrip_visible = *b;
            },
            _ => {},
        }
        proof {
            assert forall|f: Option<Seq<char>>, sort: SortMode, filmstrip: bool|
                (f matches Some(t) ==> plain_text(t)) && #[trigger] saved_text(f, sort, filmstrip)
                    == content@ implies restored(start, *self, f, sort, filmstrip) by {
                lemma_saved_document(f, sort, filmstrip);
                law_sort_text_round_trip(sort);
                let es = saved_entries(f, sort, filmstrip);
                assert(lookup(entries_view(entries@), "last_folder"@) == lookup(es, "last_folder"@));
                assert(lookup(entries_view(entries@), "sort"@) == lookup(es, "sort"@));
                assert(lookup(entries_view(entries@), "filmstrip"@) == lookup(es, "filmstrip"@));
            }
        }
    }

    pub fn toggle_filmstrip(&mut self) -> (r: bool)
        ensures
            r == !old(self).filmstrip_visible,
            *final(self) == (AppState { filmstrip_visible: r, ..*old(self) }),
    {
        self.filmstrip_visible = !self.filmstrip_visible;
        self.filmstrip_visible
    }
}

/// Going forward and then back (or back and then forward) returns to the
/// same image.
pub proof fn law_next_prev_inverse(i: int, n: int)
    requires
        0 <= i < n,
    ensures
        prev_index(next_index(i, n), n) == i,
        next_index(prev_index(i, n), n) == i,
{
    vstd::arithmetic::div_mod::lemma_mod_self_0(n);
    if i + 1 < n {
        vstd::arithmetic::div_mod::lemma_small_mod((i + 1) as nat, n as nat);
    }
    if i > 0 {
        vstd::arithmetic::div_mod::lemma_small_mod(i as nat, n as nat);
    }
}

/// `k` steps forward from image `i`.
pub open spec fn steps_forward(i: int, n: int, k: nat) -> int
    decreases k,
{
    if k == 0 {
        i
    } else {
        next_index(steps_forward(i, n, (k - 1) as nat), n)
    }
}

proof fn lemma_steps_forward(i: int, n: int, k: nat)
    requires
        0 <= i < n,
    ensures
        steps_forward(i, n, k) == (i + k) % n,
    decreases k,
{
    vstd::arithmetic::div_mod::lemma_small_mod(i as nat, n as nat);
    if k > 0 {
        lemma_steps_forward(i, n, (k - 1) as nat);
        let x = i + k - 1;
        vstd::arithmetic::div_mod::lemma_add_mod_noop(x, 1, n);
        vstd::arithmetic::div_mod::lemma_add_mod_noop_right(x % n, 1, n);
    }
}

/// Stepping forward once per image goes round the folder back to the start.
pub proof fn law_full_round(i: int, n: int)
    requires
        0 <= i < n,
    ensures
        steps_forward(i, n, n as nat) == i,
{
    lemma_steps_forward(i, n, n as nat);
    vstd::arithmetic::div_mod::lemma_mod_add_multiples_vanish(i, n);
    vstd::arithmetic::div_mod::lemma_small_mod(i as nat, n as nat);
    assert(i + n == i + (n as nat));
}

/// Removing a file that is not the current image keeps the current image
/// current; removing the current image (when it is not the last) moves on to
/// the image that followed it.
pub proof fn law_removal_keeps_place(files: Seq<Seq<char>>, index: int, pos: int)
    requires
        0 <= index < files.len(),
        0 <= pos < files.len(),
    ensures
        pos != index ==> files.remove(pos)[index_after_removal(index, pos, files.len() as int)]
            == files[index],
        pos == index && index < files.len() - 1 ==> files.remove(pos)[index_after_removal(
            index,
            pos,
            files.len() as int,
        )] == files[index + 1],
        files.len() > 1 ==> 0 <= index_after_removal(index, pos, files.len() as int) < files.len() - 1,
{
}

/// Four quarter turns of pending rotation add up to none.
pub proof fn law_pending_rotation_cycle(r: int)
    requires
        0 <= r < 360,
    ensures
        ((((r + 90) % 360 + 90) % 360 + 90) % 360 + 90) % 360 == r,
{
}

} // verus!
