//! What each workflow starts from with each encoder, and what surrounds a decision: the disk, the
//! presets, and the time.

use crate::disk::{Disk, DiskView};
use crate::model::{
    default_settings_view, Container, ContentMode, Encoder, QueueSettings, SettingsView,
};
use crate::paths::{plain, same_path};
use crate::text::{copy_opt, opt_text, same_text};
use vstd::prelude::*;

verus! {

/// The preset of a workflow with an encoder.
#[derive(Debug, PartialEq, Eq)]
pub struct Preset {
    pub mode: ContentMode,
    pub encoder: Encoder,
    pub defaults: QueueSettings,
    pub container: Container,
    /// Whether the files of a folder share their lowest frame rate.
    pub share_lowest_fps: bool,
    /// What the name of a folder ends with, after a space, once all its videos are converted.
    pub folder_suffix: Option<String>,
}

/// The contents of a `Preset`.
pub struct PresetView {
    pub mode: ContentMode,
    pub encoder: Encoder,
    pub defaults: SettingsView,
    pub container: Container,
    pub share_lowest_fps: bool,
    pub folder_suffix: Option<Seq<char>>,
}

impl View for Preset {
    type V = PresetView;

    open spec fn view(&self) -> PresetView {
        PresetView {
            mode: self.mode,
            encoder: self.encoder,
            defaults: self.defaults@,
            container: self.container,
            share_lowest_fps: self.share_lowest_fps,
            folder_suffix: opt_text(self.folder_suffix),
        }
    }
}

/// The presets of all workflows.
#[derive(Debug, PartialEq, Eq)]
pub struct Presets {
    pub entries: Vec<Preset>,
}

impl View for Presets {
    type V = Seq<PresetView>;

    open spec fn view(&self) -> Seq<PresetView> {
        self.entries@.map_values(|p: Preset| p@)
    }
}

/// The preset of a workflow with an encoder: the first that is listed.
pub open spec fn preset_of(presets: Seq<PresetView>, mode: ContentMode, encoder: Encoder) -> Option<
    PresetView,
>
    decreases presets.len(),
{
    if presets.len() == 0 {
        None
    } else if presets[0].mode == mode && presets[0].encoder == encoder {
        Some(presets[0])
    } else {
        preset_of(presets.drop_first(), mode, encoder)
    }
}

/// The settings that a workflow starts from.
pub open spec fn defaults_of(presets: Seq<PresetView>, mode: ContentMode, encoder: Encoder) -> SettingsView {
    match preset_of(presets, mode, encoder) {
        Some(p) => p.defaults,
        None => SettingsView { mode, encoder, ..default_settings_view() },
    }
}

pub open spec fn container_of(presets: Seq<PresetView>, mode: ContentMode, encoder: Encoder) -> Container {
    match preset_of(presets, mode, encoder) {
        Some(p) => p.container,
        None => Container::Matroska,
    }
}

pub open spec fn shares_lowest_fps(presets: Seq<PresetView>, mode: ContentMode, encoder: Encoder) -> bool {
    match preset_of(presets, mode, encoder) {
        Some(p) => p.share_lowest_fps,
        None => false,
    }
}

pub open spec fn suffix_of(presets: Seq<PresetView>, mode: ContentMode, encoder: Encoder) -> Option<
    Seq<char>,
> {
    match preset_of(presets, mode, encoder) {
        Some(p) => p.folder_suffix,
        None => None,
    }
}

impl Presets {
    fn find(&self, mode: ContentMode, encoder: Encoder) -> (r: Option<&Preset>)
        ensures
            match r {
                Some(p) => preset_of(self@, mode, encoder) == Some(p@),
                None => preset_of(self@, mode, encoder) is None,
            },
    {
        let ghost all = self@;
        let mut i: usize = 0;
        assert(all.skip(0) =~= all);
        while i < self.entries.len()
            invariant
                i <= self.entries@.len(),
                all == self@,
                preset_of(all, mode, encoder) == preset_of(all.skip(i as int), mode, encoder),
            decreases self.entries@.len() - i,
        {
            assert(all.skip(i as int)[0] == self.entries@[i as int]@);
            assert(all.skip(i as int).drop_first() =~= all.skip(i + 1));
            if self.entries[i].mode == mode && self.entries[i].encoder == encoder {
                return Some(&self.entries[i]);
            }
            i = i + 1;
        }
        None
    }

    /// The settings that a workflow starts from.
    pub fn default_settings(&self, mode: ContentMode, encoder: Encoder) -> (r: QueueSettings)
        ensures
            r@ == defaults_of(self@, mode, encoder),
    {
        match self.find(mode, encoder) {
            Some(p) => p.defaults.clone(),
            None => {
                let mut r = QueueSettings::default();
                r.mode = mode;
                r.encoder = encoder;
                r
            },
        }
    }

    pub fn container(&self, mode: ContentMode, encoder: Encoder) -> (r: Container)
        ensures
            r == container_of(self@, mode, encoder),
    {
        match self.find(mode, encoder) {
            Some(p) => p.container,
            None => Container::Matroska,
        }
    }

    pub fn share_lowest_fps(&self, mode: ContentMode, encoder: Encoder) -> (r: bool)
        ensures
            r == shares_lowest_fps(self@, mode, encoder),
    {
        match self.find(mode, encoder) {
            Some(p) => p.share_lowest_fps,
            None => false,
        }
    }

    /// What the name of a converted folder ends with, after a space.
    pub fn converted_directory_suffix(&self, mode: ContentMode, encoder: Encoder) -> (r: Option<
        String,
    >)
        ensures
            opt_text(r) == suffix_of(self@, mode, encoder),
    {
        match self.find(mode, encoder) {
            Some(p) => copy_opt(&p.folder_suffix),
            None => None,
        }
    }
}

/// A file as a watched folder last had it: its path, its size, and when it was changed.
#[derive(Debug, PartialEq, Eq)]
pub struct FileMark {
    pub path: String,
    pub size: u64,
    /// Nanoseconds since a fixed time.
    pub modified: Option<i128>,
}

/// The contents of a `FileMark`.
pub struct MarkView {
    pub path: Seq<char>,
    pub size: u64,
    pub modified: Option<i128>,
}

impl View for FileMark {
    type V = MarkView;

    open spec fn view(&self) -> MarkView {
        MarkView { path: self.path@, size: self.size, modified: self.modified }
    }
}

pub open spec fn mark_views(marks: Seq<FileMark>) -> Seq<MarkView> {
    marks.map_values(|m: FileMark| m@)
}

impl Clone for FileMark {
    fn clone(&self) -> (r: Self)
        ensures
            r == *self,
    {
        FileMark { path: self.path.clone(), size: self.size, modified: self.modified }
    }
}

pub fn copy_marks(marks: &Vec<FileMark>) -> (r: Vec<FileMark>)
    ensures
        mark_views(r@) == mark_views(marks@),
{
    let mut r: Vec<FileMark> = Vec::new();
    let mut i: usize = 0;
    while i < marks.len()
        invariant
            i <= marks@.len(),
            r@ == marks@.take(i as int),
        decreases marks@.len() - i,
    {
        r.push(marks[i].clone());
        i = i + 1;
        assert(r@ =~= marks@.take(i as int));
    }
    assert(marks@.take(i as int) =~= marks@);
    r
}

pub fn same_marks(a: &Vec<FileMark>, b: &Vec<FileMark>) -> (r: bool)
    ensures
        r == (mark_views(a@) == mark_views(b@)),
{
    if a.len() != b.len() {
        assert(mark_views(a@).len() != mark_views(b@).len());
        return false;
    }
    let mut i: usize = 0;
    while i < a.len()
        invariant
            i <= a@.len(),
            a@.len() == b@.len(),
            forall|j: int| 0 <= j < i ==> mark_views(a@)[j] == mark_views(b@)[j],
        decreases a@.len() - i,
    {
        let same_time = match (a[i].modified, b[i].modified) {
            (Some(x), Some(y)) => x == y,
            (None, None) => true,
            _ => false,
        };
        if !same_text(a[i].path.as_str(), b[i].path.as_str()) || a[i].size != b[i].size
            || !same_time {
            assert(mark_views(a@)[i as int] != mark_views(b@)[i as int]);
            return false;
        }
        i = i + 1;
    }
    assert(mark_views(a@) =~= mark_views(b@));
    true
}

/// The files of a watched folder as a scan saw them.
#[derive(Debug, PartialEq, Eq)]
pub struct FolderMarks {
    pub root: String,
    pub marks: Vec<FileMark>,
}

pub open spec fn folder_marks(list: Seq<FolderMarks>) -> Seq<(Seq<char>, Seq<MarkView>)> {
    list.map_values(|f: FolderMarks| (f.root@, mark_views(f.marks@)))
}

/// The files of a folder; none where no scan saw it.
pub open spec fn marks_of(list: Seq<(Seq<char>, Seq<MarkView>)>, root: Seq<char>) -> Seq<MarkView>
    decreases list.len(),
{
    if list.len() == 0 {
        Seq::empty()
    } else if plain(list[0].0) == plain(root) {
        list[0].1
    } else {
        marks_of(list.drop_first(), root)
    }
}

/// What decisions look at besides the program's own state.
#[derive(Debug, PartialEq, Eq)]
pub struct Surroundings {
    pub disk: Disk,
    pub presets: Presets,
    pub marks: Vec<FolderMarks>,
    /// The local time, formatted.
    pub now: String,
}

/// The contents of `Surroundings`.
pub struct SurroundingsView {
    pub disk: DiskView,
    pub presets: Seq<PresetView>,
    pub marks: Seq<(Seq<char>, Seq<MarkView>)>,
    pub now: Seq<char>,
}

impl View for Surroundings {
    type V = SurroundingsView;

    open spec fn view(&self) -> SurroundingsView {
        SurroundingsView {
            disk: self.disk@,
            presets: self.presets@,
            marks: folder_marks(self.marks@),
            now: self.now@,
        }
    }
}

impl Surroundings {
    /// The files of a folder as the scan saw them.
    pub fn folder_snapshot(&self, root: &str) -> (r: Vec<FileMark>)
        ensures
            mark_views(r@) == marks_of(self@.marks, root@),
    {
        let ghost all = self@.marks;
        let mut i: usize = 0;
        assert(all.skip(0) =~= all);
        while i < self.marks.len()
            invariant
                i <= self.marks@.len(),
                all == folder_marks(self.marks@),
                marks_of(all, root@) == marks_of(all.skip(i as int), root@),
            decreases self.marks@.len() - i,
        {
            assert(all.skip(i as int)[0] == (
                self.marks@[i as int].root@,
                mark_views(self.marks@[i as int].marks@),
            ));
            assert(all.skip(i as int).drop_first() =~= all.skip(i + 1));
            if same_path(self.marks[i].root.as_str(), root) {
                return copy_marks(&self.marks[i].marks);
            }
            i = i + 1;
        }
        let r: Vec<FileMark> = Vec::new();
        assert(mark_views(r@) =~= Seq::<MarkView>::empty());
        r
    }
}

} // verus!
