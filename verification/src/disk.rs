//! What a scan of the disk saw, and the files that it holds below a folder.

use crate::media_files::{
    has_photo_filename, has_video_filename, is_photo_name, is_skipped_conversion_directory,
    is_skipped_folder, is_stabilized_export, is_stabilized_name, is_video_name,
};
use crate::model::ContentMode;
use crate::natural::{naturally_sorted, photos_sorted, sort_by_full_path, sort_photos};
use crate::output_naming::{stabilized_output_path, stabilized_path};
use crate::paths::{
    file_name, file_stem, joined, parent, path_file_name, path_file_stem, path_join, path_parent,
    path_trimmed, plain, plain_path, trimmed,
};
use crate::text::{concat2, concat3, list_contains, same_text, texts, to_chars};
use vstd::prelude::*;

verus! {

/// An entry of a folder: a file or a folder.
#[derive(Debug, Clone, PartialEq, Eq)]
pub struct DiskEntry {
    pub name: String,
    pub is_folder: bool,
}

/// A folder with its entries, as far as it could be read.
#[derive(Debug, Clone, PartialEq, Eq)]
pub struct DiskFolder {
    pub path: String,
    /// Nothing where the folder could not be read.
    pub entries: Option<Vec<DiskEntry>>,
}

/// The folders that a scan saw, and files that it looked for outside of them, by their plain paths.
#[derive(Debug, Clone, PartialEq, Eq)]
pub struct Disk {
    pub folders: Vec<DiskFolder>,
    pub files: Vec<String>,
}

pub struct EntryView {
    pub name: Seq<char>,
    pub is_folder: bool,
}

pub struct FolderView {
    pub path: Seq<char>,
    pub entries: Option<Seq<EntryView>>,
}

pub struct DiskView {
    pub folders: Seq<FolderView>,
    pub files: Seq<Seq<char>>,
}

pub open spec fn entry_view(e: DiskEntry) -> EntryView {
    EntryView { name: e.name@, is_folder: e.is_folder }
}

pub open spec fn entries_view(entries: Seq<DiskEntry>) -> Seq<EntryView> {
    entries.map_values(|e: DiskEntry| entry_view(e))
}

pub open spec fn folder_view(f: DiskFolder) -> FolderView {
    FolderView {
        path: f.path@,
        entries: match f.entries {
            Some(entries) => Some(entries_view(entries@)),
            None => None,
        },
    }
}

impl View for Disk {
    type V = DiskView;

    open spec fn view(&self) -> DiskView {
        DiskView {
            folders: self.folders@.map_values(|f: DiskFolder| folder_view(f)),
            files: texts(self.files@),
        }
    }
}

/// The first record of a folder stands at `i`.
pub open spec fn folder_at(d: DiskView, p: Seq<char>, i: int) -> bool {
    &&& 0 <= i < d.folders.len()
    &&& d.folders[i].path == plain(p)
    &&& forall|j: int| 0 <= j < i ==> (#[trigger] d.folders[j]).path != plain(p)
}

pub open spec fn is_folder(d: DiskView, p: Seq<char>) -> bool {
    exists|i: int| folder_at(d, p, i)
}

/// What the scan could read of a folder; nothing where it could not, and for what is no folder.
pub open spec fn listing_of(d: DiskView, p: Seq<char>) -> Option<Seq<EntryView>> {
    if is_folder(d, p) {
        d.folders[choose|i: int| folder_at(d, p, i)].entries
    } else {
        None
    }
}

/// A folder that the scan could read.
pub open spec fn is_readable(d: DiskView, p: Seq<char>) -> bool {
    listing_of(d, p) is Some
}

/// The entries of a folder; none for what is no folder or could not be read.
pub open spec fn entries_of(d: DiskView, p: Seq<char>) -> Seq<EntryView> {
    if is_readable(d, p) {
        listing_of(d, p)->0
    } else {
        Seq::empty()
    }
}

/// Some entry is a file of this name.
pub open spec fn lists_file(entries: Seq<EntryView>, name: Seq<char>) -> bool {
    exists|i: int|
        0 <= i < entries.len() && !(#[trigger] entries[i]).is_folder && entries[i].name == name
}

/// A file that the scan saw, by itself or in its folder. A path that ends in a slash names none.
pub open spec fn is_file(d: DiskView, p: Seq<char>) -> bool {
    trimmed(p) == p && (d.files.contains(plain(p)) || (parent(p) is Some && file_name(p) is Some && lists_file(
        entries_of(d, parent(p)->0),
        file_name(p)->0,
    )))
}

pub open spec fn exists_on(d: DiskView, p: Seq<char>) -> bool {
    is_folder(d, p) || is_file(d, p)
}

/// The path of an entry.
pub open spec fn child_path(dir: Seq<char>, name: Seq<char>) -> Seq<char> {
    if dir.len() == 0 {
        name
    } else if dir.last() == '/' {
        dir + name
    } else {
        dir + "/"@ + name
    }
}

/// Which folders a search goes into.
#[derive(Debug, Clone, Copy, PartialEq, Eq, Structural)]
pub enum Descent {
    /// All but folders of originals, subtitles, and converted files.
    Unconverted,
    /// All but folders of originals and subtitles.
    Finished,
    All,
}

/// Which files a search looks for.
#[derive(Debug, Clone, Copy, PartialEq, Eq, Structural)]
pub enum Wanted {
    Videos,
    Photos,
}

pub open spec fn goes_into(descent: Descent, p: Seq<char>) -> bool {
    match descent {
        Descent::Unconverted => !is_skipped_folder(p),
        Descent::Finished => file_name(p) != Some("original"@) && file_name(p) != Some("chs"@),
        Descent::All => true,
    }
}

pub open spec fn is_wanted(wanted: Wanted, p: Seq<char>) -> bool {
    match wanted {
        Wanted::Videos => is_video_name(p),
        Wanted::Photos => is_photo_name(p),
    }
}

/// The length of the longest folder path.
pub open spec fn longest(folders: Seq<FolderView>) -> nat
    decreases folders.len(),
{
    if folders.len() == 0 {
        0
    } else {
        let before = longest(folders.drop_last());
        if folders.last().path.len() > before {
            folders.last().path.len()
        } else {
            before
        }
    }
}

/// How much longer than a path a folder's path can be.
pub open spec fn room(d: DiskView, p: Seq<char>) -> nat {
    if plain(p).len() <= longest(d.folders) {
        (longest(d.folders) + 1 - plain(p).len()) as nat
    } else {
        0
    }
}

/// The wanted files among the entries of a folder from the `i`th on, and below them.
pub open spec fn files_from(
    d: DiskView,
    dir: Seq<char>,
    i: int,
    descent: Descent,
    wanted: Wanted,
) -> Seq<Seq<char>>
    decreases room(d, dir), entries_of(d, dir).len() - i,
{
    let entries = entries_of(d, dir);
    if i < 0 || i >= entries.len() {
        Seq::empty()
    } else {
        let child = child_path(dir, entries[i].name);
        let here = if entries[i].is_folder {
            if goes_into(descent, child) && room(d, child) < room(d, dir) {
                files_from(d, child, 0, descent, wanted)
            } else {
                Seq::empty()
            }
        } else if is_wanted(wanted, child) {
            seq![child]
        } else {
            Seq::empty()
        };
        here + files_from(d, dir, i + 1, descent, wanted)
    }
}

/// The wanted files below a folder.
pub open spec fn files_below(
    d: DiskView,
    dir: Seq<char>,
    descent: Descent,
    wanted: Wanted,
) -> Seq<Seq<char>> {
    files_from(d, dir, 0, descent, wanted)
}

proof fn lemma_longest(folders: Seq<FolderView>, i: int)
    requires
        0 <= i < folders.len(),
    ensures
        folders[i].path.len() <= longest(folders),
    decreases folders.len(),
{
    if i < folders.len() - 1 {
        lemma_longest(folders.drop_last(), i);
        assert(folders.drop_last()[i] == folders[i]);
    }
}

proof fn lemma_child_has_less_room(d: DiskView, dir: Seq<char>, name: Seq<char>)
    requires
        is_folder(d, dir),
    ensures
        (room(d, child_path(dir, name)) < room(d, dir)) <==> plain(child_path(dir, name)).len()
            > plain(dir).len(),
{
    let i = choose|i: int| folder_at(d, dir, i);
    lemma_longest(d.folders, i);
    reveal_strlit("/");
}

/// There is room below a folder that was seen, and less of it below its entries that stand deeper.
pub proof fn lemma_recorded_folders_have_room(d: DiskView, dir: Seq<char>)
    requires
        is_folder(d, dir),
    ensures
        room(d, dir) > 0,
{
    let i = choose|i: int| folder_at(d, dir, i);
    lemma_longest(d.folders, i);
}

proof fn lemma_folder_unique(d: DiskView, p: Seq<char>, i: int)
    requires
        folder_at(d, p, i),
    ensures
        is_folder(d, p),
        listing_of(d, p) == d.folders[i].entries,
{
    let k = choose|k: int| folder_at(d, p, k);
    assert(folder_at(d, p, k));
    if k < i {
        assert(d.folders[k].path != plain(p));
    }
    if i < k {
        assert(d.folders[i].path != plain(p));
    }
}

pub fn child(dir: &str, name: &str) -> (r: String)
    ensures
        r@ == child_path(dir@, name@),
{
    let chars = to_chars(dir);
    if chars.len() == 0 {
        name.to_owned()
    } else if chars[chars.len() - 1] == '/' {
        concat2(dir, name)
    } else {
        concat3(dir, "/", name)
    }
}

/// Whether the plain form of a path is longer than that of another.
fn is_deeper(path: &str, dir: &str) -> (r: bool)
    ensures
        r == (plain(path@).len() > plain(dir@).len()),
{
    to_chars(plain_path(path).as_str()).len() > to_chars(plain_path(dir).as_str()).len()
}

fn may_enter(descent: Descent, path: &str) -> (r: bool)
    ensures
        r == goes_into(descent, path@),
{
    match descent {
        Descent::Unconverted => !is_skipped_conversion_directory(path),
        Descent::Finished => match path_file_name(path) {
            Some(name) => !same_text(name.as_str(), "original") && !same_text(name.as_str(), "chs"),
            None => true,
        },
        Descent::All => true,
    }
}

fn wants(wanted: Wanted, path: &str) -> (r: bool)
    ensures
        r == is_wanted(wanted, path@),
{
    match wanted {
        Wanted::Videos => has_video_filename(path),
        Wanted::Photos => has_photo_filename(path),
    }
}

impl Disk {
    /// The place of a folder's record.
    fn find(&self, path: &str) -> (r: Option<usize>)
        ensures
            match r {
                Some(i) => i < self.folders@.len() && folder_at(self@, path@, i as int),
                None => !is_folder(self@, path@),
            },
    {
        let wanted = plain_path(path);
        let mut i: usize = 0;
        while i < self.folders.len()
            invariant
                i <= self.folders@.len(),
                self@.folders.len() == self.folders@.len(),
                wanted@ == plain(path@),
                forall|j: int| 0 <= j < i ==> (#[trigger] self@.folders[j]).path != wanted@,
            decreases self.folders@.len() - i,
        {
            assert(self@.folders[i as int] == folder_view(self.folders@[i as int]));
            if same_text(self.folders[i].path.as_str(), wanted.as_str()) {
                assert(folder_at(self@, path@, i as int));
                return Some(i);
            }
            i = i + 1;
        }
        None
    }

    /// The entries of a folder, where the scan could read it.
    pub fn entries(&self, path: &str) -> (r: Option<&Vec<DiskEntry>>)
        ensures
            match r {
                Some(entries) => is_readable(self@, path@) && entries_view(entries@) == entries_of(
                    self@,
                    path@,
                ),
                None => !is_readable(self@, path@),
            },
    {
        let i: usize = match self.find(path) {
            Some(i) => i,
            None => {
                return None;
            },
        };
        proof {
            lemma_folder_unique(self@, path@, i as int);
            assert(self@.folders[i as int] == folder_view(self.folders@[i as int]));
        }
        self.folders[i].entries.as_ref()
    }

    pub fn is_dir(&self, path: &str) -> (r: bool)
        ensures
            r == is_folder(self@, path@),
    {
        match self.find(path) {
            Some(i) => {
                assert(folder_at(self@, path@, i as int));
                true
            },
            None => false,
        }
    }

    fn lists(&self, folder: &str, name: &str) -> (r: bool)
        ensures
            r == lists_file(entries_of(self@, folder@), name@),
    {
        match self.entries(folder) {
            Some(entries) => {
                let ghost views = entries_view(entries@);
                let mut i: usize = 0;
                while i < entries.len()
                    invariant
                        i <= entries@.len(),
                        views == entries_view(entries@),
                        views == entries_of(self@, folder@),
                        forall|k: int|
                            0 <= k < i ==> (#[trigger] views[k]).is_folder || views[k].name
                                != name@,
                    decreases entries@.len() - i,
                {
                    assert(views[i as int] == entry_view(entries@[i as int]));
                    if !entries[i].is_folder && same_text(entries[i].name.as_str(), name) {
                        return true;
                    }
                    i = i + 1;
                }
                false
            },
            None => false,
        }
    }

    pub fn is_file(&self, path: &str) -> (r: bool)
        ensures
            r == is_file(self@, path@),
    {
        if !same_text(path_trimmed(path).as_str(), path) {
            return false;
        }
        if list_contains(&self.files, plain_path(path).as_str()) {
            return true;
        }
        match (path_parent(path), path_file_name(path)) {
            (Some(folder), Some(name)) => self.lists(folder.as_str(), name.as_str()),
            _ => false,
        }
    }

    pub fn has_path(&self, path: &str) -> (r: bool)
        ensures
            r == exists_on(self@, path@),
    {
        self.is_dir(path) || self.is_file(path)
    }

    /// Adds the wanted files below a folder to a list.
    fn add_files(&self, dir: &str, descent: Descent, wanted: Wanted, out: &mut Vec<String>)
        ensures
            texts(final(out)@) == texts(old(out)@) + files_below(self@, dir@, descent, wanted),
        decreases room(self@, dir@),
    {
        let entries = match self.entries(dir) {
            Some(entries) => entries,
            None => {
                assert(texts(out@) =~= texts(old(out)@) + files_below(self@, dir@, descent, wanted));
                return;
            },
        };
        let ghost d = self@;
        let ghost views = entries_of(d, dir@);
        let ghost all = files_below(d, dir@, descent, wanted);
        let mut i: usize = 0;
        while i < entries.len()
            invariant
                i <= entries@.len(),
                d == self@,
                is_folder(d, dir@),
                views == entries_of(d, dir@),
                views == entries_view(entries@),
                texts(out@) + files_from(d, dir@, i as int, descent, wanted) == texts(old(out)@)
                    + all,
            decreases entries@.len() - i,
        {
            assert(views[i as int] == entry_view(entries@[i as int]));
            let path = child(dir, entries[i].name.as_str());
            let ghost before = texts(out@);
            let ghost rest = files_from(d, dir@, i + 1, descent, wanted);
            proof {
                lemma_child_has_less_room(d, dir@, entries@[i as int].name@);
            }
            if entries[i].is_folder {
                let deeper = entries[i].is_folder && is_deeper(path.as_str(), dir);
                if deeper && may_enter(descent, path.as_str()) {
                    self.add_files(path.as_str(), descent, wanted, out);
                    assert(texts(out@) + rest =~= before + (files_below(
                        d,
                        path@,
                        descent,
                        wanted,
                    ) + rest));
                } else {
                    assert(Seq::<Seq<char>>::empty() + rest =~= rest);
                }
            } else if wants(wanted, path.as_str()) {
                let ghost added = path@;
                out.push(path);
                assert(texts(out@) =~= before.push(added));
                assert(texts(out@) + rest =~= before + (seq![added] + rest));
            } else {
                assert(Seq::<Seq<char>>::empty() + rest =~= rest);
            }
            i = i + 1;
        }
        assert(texts(out@) + files_from(d, dir@, i as int, descent, wanted) =~= texts(out@));
    }

    /// The wanted files below a folder, in the order of the scan.
    pub fn files_below(&self, dir: &str, descent: Descent, wanted: Wanted) -> (r: Vec<String>)
        ensures
            texts(r@) == files_below(self@, dir@, descent, wanted),
    {
        let mut r: Vec<String> = Vec::new();
        self.add_files(dir, descent, wanted, &mut r);
        assert(texts(r@) =~= files_below(self@, dir@, descent, wanted));
        r
    }
}

/// The folders among the entries of a folder from the `i`th on, and below them, that a search goes into.
pub open spec fn folders_from(
    d: DiskView,
    dir: Seq<char>,
    i: int,
    descent: Descent,
) -> Seq<Seq<char>>
    decreases room(d, dir), entries_of(d, dir).len() - i,
{
    let entries = entries_of(d, dir);
    if i < 0 || i >= entries.len() {
        Seq::empty()
    } else {
        let child = child_path(dir, entries[i].name);
        let here = if entries[i].is_folder && goes_into(descent, child) && room(d, child) < room(
            d,
            dir,
        ) {
            seq![child] + folders_from(d, child, 0, descent)
        } else {
            Seq::empty()
        };
        here + folders_from(d, dir, i + 1, descent)
    }
}

/// A folder and the folders below it that a search goes into.
pub open spec fn folders_below(d: DiskView, dir: Seq<char>, descent: Descent) -> Seq<Seq<char>> {
    seq![dir] + folders_from(d, dir, 0, descent)
}

/// The folders of subtitles and converted files, but not of originals, that a search for unconverted
/// files comes upon among the entries of a folder from the `i`th on, and below them.
pub open spec fn set_aside_from(d: DiskView, dir: Seq<char>, i: int) -> Seq<Seq<char>>
    decreases room(d, dir), entries_of(d, dir).len() - i,
{
    let entries = entries_of(d, dir);
    if i < 0 || i >= entries.len() {
        Seq::empty()
    } else {
        let child = child_path(dir, entries[i].name);
        let here = if !entries[i].is_folder || room(d, child) >= room(d, dir) {
            Seq::empty()
        } else if file_name(child) == Some("original"@) {
            Seq::empty()
        } else if is_skipped_folder(child) {
            seq![child]
        } else {
            set_aside_from(d, child, 0)
        };
        here + set_aside_from(d, dir, i + 1)
    }
}

impl Disk {
    fn add_folders(&self, dir: &str, descent: Descent, out: &mut Vec<String>)
        ensures
            texts(final(out)@) == texts(old(out)@) + folders_from(self@, dir@, 0, descent),
        decreases room(self@, dir@),
    {
        let entries = match self.entries(dir) {
            Some(entries) => entries,
            None => {
                assert(texts(out@) =~= texts(old(out)@) + folders_from(self@, dir@, 0, descent));
                return;
            },
        };
        let ghost d = self@;
        let ghost views = entries_of(d, dir@);
        let ghost all = folders_from(d, dir@, 0, descent);
        let mut i: usize = 0;
        while i < entries.len()
            invariant
                i <= entries@.len(),
                d == self@,
                is_folder(d, dir@),
                views == entries_of(d, dir@),
                views == entries_view(entries@),
                texts(out@) + folders_from(d, dir@, i as int, descent) == texts(old(out)@) + all,
            decreases entries@.len() - i,
        {
            assert(views[i as int] == entry_view(entries@[i as int]));
            let path = child(dir, entries[i].name.as_str());
            let ghost before = texts(out@);
            let ghost rest = folders_from(d, dir@, i + 1, descent);
            proof {
                lemma_child_has_less_room(d, dir@, entries@[i as int].name@);
            }
            let deeper = entries[i].is_folder && is_deeper(path.as_str(), dir);
            if entries[i].is_folder && deeper && may_enter(descent, path.as_str()) {
                out.push(path.clone());
                assert(texts(out@) =~= before.push(path@));
                self.add_folders(path.as_str(), descent, out);
                assert(texts(out@) + rest =~= before + ((seq![path@] + folders_from(
                    d,
                    path@,
                    0,
                    descent,
                )) + rest));
            } else {
                assert(Seq::<Seq<char>>::empty() + rest =~= rest);
            }
            i = i + 1;
        }
        assert(texts(out@) + folders_from(d, dir@, i as int, descent) =~= texts(out@));
    }

    /// A folder and the folders below it that a search goes into.
    pub fn folders_below(&self, dir: &str, descent: Descent) -> (r: Vec<String>)
        ensures
            texts(r@) == folders_below(self@, dir@, descent),
    {
        let mut r: Vec<String> = Vec::new();
        r.push(dir.to_owned());
        assert(texts(r@) =~= seq![dir@]);
        self.add_folders(dir, descent, &mut r);
        r
    }

    fn add_set_aside(&self, dir: &str, out: &mut Vec<String>)
        ensures
            texts(final(out)@) == texts(old(out)@) + set_aside_from(self@, dir@, 0),
        decreases room(self@, dir@),
    {
        let entries = match self.entries(dir) {
            Some(entries) => entries,
            None => {
                assert(texts(out@) =~= texts(old(out)@) + set_aside_from(self@, dir@, 0));
                return;
            },
        };
        let ghost d = self@;
        let ghost views = entries_of(d, dir@);
        let ghost all = set_aside_from(d, dir@, 0);
        let mut i: usize = 0;
        while i < entries.len()
            invariant
                i <= entries@.len(),
                d == self@,
                is_folder(d, dir@),
                views == entries_of(d, dir@),
                views == entries_view(entries@),
                texts(out@) + set_aside_from(d, dir@, i as int) == texts(old(out)@) + all,
            decreases entries@.len() - i,
        {
            assert(views[i as int] == entry_view(entries@[i as int]));
            let path = child(dir, entries[i].name.as_str());
            let ghost before = texts(out@);
            let ghost rest = set_aside_from(d, dir@, i + 1);
            proof {
                lemma_child_has_less_room(d, dir@, entries@[i as int].name@);
            }
            let deeper = entries[i].is_folder && is_deeper(path.as_str(), dir);
            let is_original = match path_file_name(path.as_str()) {
                Some(name) => same_text(name.as_str(), "original"),
                None => false,
            };
            if !entries[i].is_folder || !deeper || is_original {
                assert(Seq::<Seq<char>>::empty() + rest =~= rest);
            } else if is_skipped_conversion_directory(path.as_str()) {
                let ghost added = path@;
                out.push(path);
                assert(texts(out@) =~= before.push(added));
                assert(texts(out@) + rest =~= before + (seq![added] + rest));
            } else {
                self.add_set_aside(path.as_str(), out);
                assert(texts(out@) + rest =~= before + (set_aside_from(d, path@, 0) + rest));
            }
            i = i + 1;
        }
        assert(texts(out@) + set_aside_from(d, dir@, i as int) =~= texts(out@));
    }

    /// The folders of subtitles and converted files that a search for unconverted files comes upon.
    pub fn set_aside_below(&self, dir: &str) -> (r: Vec<String>)
        ensures
            texts(r@) == set_aside_from(self@, dir@, 0),
    {
        let mut r: Vec<String> = Vec::new();
        self.add_set_aside(dir, &mut r);
        assert(texts(r@) =~= set_aside_from(self@, dir@, 0));
        r
    }
}

/// The videos below a folder that conversion looks at, in natural order.
pub open spec fn video_files(d: DiskView, root: Seq<char>) -> Seq<Seq<char>> {
    naturally_sorted(files_below(d, root, Descent::Unconverted, Wanted::Videos))
}

pub fn collect_video_files(disk: &Disk, root: &str) -> (r: Vec<String>)
    ensures
        texts(r@) == video_files(disk@, root@),
{
    let found = disk.files_below(root, Descent::Unconverted, Wanted::Videos);
    sort_by_full_path(&found)
}

/// A photo, or the photos below a folder in natural order.
pub open spec fn photo_files(d: DiskView, root: Seq<char>) -> Seq<Seq<char>> {
    if is_file(d, root) && is_photo_name(root) {
        seq![root]
    } else {
        photos_sorted(files_below(d, root, Descent::All, Wanted::Photos))
    }
}

pub fn collect_photo_files(disk: &Disk, root: &str) -> (r: Vec<String>)
    ensures
        texts(r@) == photo_files(disk@, root@),
{
    if is_photo_path(disk, root) {
        let mut r: Vec<String> = Vec::new();
        r.push(root.to_owned());
        assert(texts(r@) =~= seq![root@]);
        r
    } else {
        let found = disk.files_below(root, Descent::All, Wanted::Photos);
        sort_photos(&found)
    }
}

/// Whether a path is a video file.
pub fn is_video_path(disk: &Disk, path: &str) -> (r: bool)
    ensures
        r == (is_file(disk@, path@) && is_video_name(path@)),
{
    has_video_filename(path) && disk.is_file(path)
}

/// Whether a path is a photo file.
pub fn is_photo_path(disk: &Disk, path: &str) -> (r: bool)
    ensures
        r == (is_file(disk@, path@) && is_photo_name(path@)),
{
    has_photo_filename(path) && disk.is_file(path)
}

/// Whether a folder holds two photos or more.
pub fn directory_has_two_photos(disk: &Disk, root: &str) -> (r: bool)
    ensures
        r == (files_below(disk@, root@, Descent::All, Wanted::Photos).len() >= 2),
{
    let found = disk.files_below(root, Descent::All, Wanted::Photos);
    assert(texts(found@).len() == found@.len());
    found.len() >= 2
}

/// The folder of originals beside a file.
pub open spec fn originals_folder(p: Seq<char>) -> Seq<char> {
    joined(parent(p)->0, "original"@)
}

/// An entry of the folder of originals has the stem of the file.
pub open spec fn has_backup(d: DiskView, p: Seq<char>) -> bool {
    file_stem(p) is Some && parent(p) is Some && exists|i: int|
        0 <= i < entries_of(d, originals_folder(p)).len() && file_stem(
            child_path(originals_folder(p), (#[trigger] entries_of(d, originals_folder(p))[i]).name),
        ) == file_stem(p)
}

pub fn has_original_backup_stem(disk: &Disk, path: &str) -> (r: bool)
    ensures
        r == has_backup(disk@, path@),
{
    let (stem, folder) = match (path_file_stem(path), path_parent(path)) {
        (Some(stem), Some(folder)) => (stem, path_join(folder.as_str(), "original")),
        _ => {
            return false;
        },
    };
    match disk.entries(folder.as_str()) {
        Some(entries) => {
            let ghost views = entries_of(disk@, folder@);
            let mut i: usize = 0;
            while i < entries.len()
                invariant
                    i <= entries@.len(),
                    views == entries_of(disk@, folder@),
                    views == entries_view(entries@),
                    file_stem(path@) == Some(stem@),
                    parent(path@) is Some,
                    folder@ == originals_folder(path@),
                    forall|k: int|
                        0 <= k < i ==> file_stem(child_path(folder@, (#[trigger] views[k]).name))
                            != Some(stem@),
                decreases entries@.len() - i,
            {
                assert(views[i as int] == entry_view(entries@[i as int]));
                let other = child(folder.as_str(), entries[i].name.as_str());
                if let Some(found) = path_file_stem(other.as_str()) {
                    if same_text(found.as_str(), stem.as_str()) {
                        return true;
                    }
                }
                i = i + 1;
            }
            false
        },
        None => false,
    }
}

/// A source that needs no work: stabilization has made or made from it a file, or its original has
/// been put aside.
pub open spec fn is_done(d: DiskView, p: Seq<char>, mode: ContentMode) -> bool {
    if mode == ContentMode::Stabilize {
        is_stabilized_name(p) || exists_on(d, stabilized_path(p))
    } else {
        has_backup(d, p)
    }
}

pub fn should_skip_queue_source(disk: &Disk, path: &str, mode: ContentMode) -> (r: bool)
    ensures
        r == is_done(disk@, path@, mode),
{
    if mode == ContentMode::Stabilize {
        is_stabilized_export(path) || disk.has_path(stabilized_output_path(path).as_str())
    } else {
        has_original_backup_stem(disk, path)
    }
}

} // verus!
