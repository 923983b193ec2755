//! The review of the photos of a slideshow: their order, which are included, and the previews that a
//! worker prepares.

use crate::disk::{collect_photo_files, photo_files, Disk, DiskView};
use crate::engine::{engine_error_text, EngineError};
use crate::model::ContentMode;
use crate::paths::{file_name, has_path, path_file_name, plain_path, plain_paths, plains};
use crate::queue::{moved, QueueStatus, QueueTask, TaskView};
use crate::selection::{landing, move_item_to_insertion};
use crate::text::{
    concat3, copy_list, decimal, decimal_text, join_texts, join_with, list_contains, opt_text,
    texts,
};
use crate::thumbnails::{same_texts, ThumbnailMap, ThumbnailState, Thumbnails};
use vstd::prelude::*;

verus! {

/// What a photo is prepared for.
#[derive(Debug, Clone, Copy, PartialEq, Eq, Structural)]
pub enum ReviewPhotoTarget {
    Review,
    Viewer,
    Thumbnail,
}

/// What a slide is prepared for.
#[derive(Debug, Clone, Copy, PartialEq, Eq, Structural)]
pub enum ReviewSlideTarget {
    Selected,
    Thumbnail,
}

#[derive(Debug, Clone, Copy, PartialEq, Eq, Structural)]
pub enum PhotoReviewTab {
    OriginalPhotos,
    Slides,
}

/// Work for the preview worker.
#[derive(Debug, PartialEq, Eq)]
pub enum ReviewWorkerRequest {
    Photo {
        request_id: u64,
        target: ReviewPhotoTarget,
        path: String,
        maximum_width: u32,
        maximum_height: u32,
    },
    SlideGroups { request_id: u64, paths: Vec<String>, collage: bool },
    SlidePreview {
        request_id: u64,
        target: ReviewSlideTarget,
        paths: Vec<String>,
        collage: bool,
        width: u32,
        height: u32,
    },
}

/// The contents of a `ReviewWorkerRequest`.
pub enum RequestView {
    Photo {
        request_id: u64,
        target: ReviewPhotoTarget,
        path: Seq<char>,
        maximum_width: u32,
        maximum_height: u32,
    },
    SlideGroups { request_id: u64, paths: Seq<Seq<char>>, collage: bool },
    SlidePreview {
        request_id: u64,
        target: ReviewSlideTarget,
        paths: Seq<Seq<char>>,
        collage: bool,
        width: u32,
        height: u32,
    },
}

impl View for ReviewWorkerRequest {
    type V = RequestView;

    open spec fn view(&self) -> RequestView {
        match *self {
            ReviewWorkerRequest::Photo {
                request_id,
                target,
                path,
                maximum_width,
                maximum_height,
            } => RequestView::Photo {
                request_id,
                target,
                path: path@,
                maximum_width,
                maximum_height,
            },
            ReviewWorkerRequest::SlideGroups { request_id, paths, collage } => {
                RequestView::SlideGroups { request_id, paths: texts(paths@), collage }
            },
            ReviewWorkerRequest::SlidePreview {
                request_id,
                target,
                paths,
                collage,
                width,
                height,
            } => RequestView::SlidePreview {
                request_id,
                target,
                paths: texts(paths@),
                collage,
                width,
                height,
            },
        }
    }
}

pub open spec fn opt_request(r: Option<ReviewWorkerRequest>) -> Option<RequestView> {
    match r {
        Some(r) => Some(r@),
        None => None,
    }
}

/// Everything but a small image in a list is wanted at once.
pub open spec fn is_priority(r: RequestView) -> bool {
    match r {
        RequestView::Photo { target, .. } => target != ReviewPhotoTarget::Thumbnail,
        RequestView::SlideGroups { .. } => true,
        RequestView::SlidePreview { target, .. } => target != ReviewSlideTarget::Thumbnail,
    }
}

pub fn review_request_is_priority(request: &ReviewWorkerRequest) -> (r: bool)
    ensures
        r == is_priority(request@),
{
    match request {
        ReviewWorkerRequest::Photo { target, .. } => *target != ReviewPhotoTarget::Thumbnail,
        ReviewWorkerRequest::SlideGroups { .. } => true,
        ReviewWorkerRequest::SlidePreview { target, .. } => *target
            != ReviewSlideTarget::Thumbnail,
    }
}

/// The request that the worker takes next: the first that is wanted at once, and otherwise the oldest.
pub fn next_review_request(pending: &Vec<ReviewWorkerRequest>) -> (r: Option<usize>)
    ensures
        match r {
            None => pending@.len() == 0,
            Some(i) => i < pending@.len() && (is_priority(pending@[i as int]@) && (forall|j: int|
                0 <= j < i ==> !is_priority((#[trigger] pending@[j])@)) || i == 0 && forall|j: int|
                0 <= j < pending@.len() ==> !is_priority((#[trigger] pending@[j])@)),
        },
{
    let mut i: usize = 0;
    while i < pending.len()
        invariant
            i <= pending@.len(),
            forall|j: int| 0 <= j < i ==> !is_priority((#[trigger] pending@[j])@),
        decreases pending@.len() - i,
    {
        if review_request_is_priority(&pending[i]) {
            return Some(i);
        }
        i = i + 1;
    }
    if pending.len() == 0 {
        None
    } else {
        Some(0)
    }
}

/// What the preview worker reports. Prepared images stay with the front end.
#[derive(Debug, PartialEq, Eq)]
pub enum ReviewWorkerResult {
    Photo {
        request_id: u64,
        target: ReviewPhotoTarget,
        path: String,
        result: Result<(), EngineError>,
    },
    SlideGroups { request_id: u64, result: Result<Vec<Vec<String>>, EngineError> },
    SlidePreview {
        request_id: u64,
        target: ReviewSlideTarget,
        paths: Vec<String>,
        result: Result<(), EngineError>,
    },
}

/// The contents of a `ReviewWorkerResult`; errors as their words.
pub enum ResultView {
    Photo {
        request_id: u64,
        target: ReviewPhotoTarget,
        path: Seq<char>,
        result: Result<(), Seq<char>>,
    },
    SlideGroups { request_id: u64, result: Result<Seq<Seq<Seq<char>>>, Seq<char>> },
    SlidePreview {
        request_id: u64,
        target: ReviewSlideTarget,
        paths: Seq<Seq<char>>,
        result: Result<(), Seq<char>>,
    },
}

pub open spec fn group_texts(groups: Seq<Vec<String>>) -> Seq<Seq<Seq<char>>> {
    groups.map_values(|g: Vec<String>| texts(g@))
}

pub open spec fn outcome_view(r: Result<(), EngineError>) -> Result<(), Seq<char>> {
    match r {
        Ok(()) => Ok(()),
        Err(e) => Err(engine_error_text(e)),
    }
}

impl View for ReviewWorkerResult {
    type V = ResultView;

    open spec fn view(&self) -> ResultView {
        match *self {
            ReviewWorkerResult::Photo { request_id, target, path, result } => ResultView::Photo {
                request_id,
                target,
                path: path@,
                result: outcome_view(result),
            },
            ReviewWorkerResult::SlideGroups { request_id, result } => ResultView::SlideGroups {
                request_id,
                result: match result {
                    Ok(groups) => Ok(group_texts(groups@)),
                    Err(e) => Err(engine_error_text(e)),
                },
            },
            ReviewWorkerResult::SlidePreview { request_id, target, paths, result } => {
                ResultView::SlidePreview {
                    request_id,
                    target,
                    paths: texts(paths@),
                    result: outcome_view(result),
                }
            },
        }
    }
}

/// A place for one preview: what it is of, and what has come of it.
#[derive(Debug, PartialEq, Eq)]
pub struct PreviewSlot {
    pub paths: Vec<String>,
    pub request: Option<u64>,
    pub shown: bool,
    pub error: Option<String>,
}

/// The contents of a `PreviewSlot`.
#[verifier::ext_equal]
pub struct SlotView {
    pub paths: Seq<Seq<char>>,
    pub request: Option<u64>,
    pub shown: bool,
    pub error: Option<Seq<char>>,
}

impl View for PreviewSlot {
    type V = SlotView;

    open spec fn view(&self) -> SlotView {
        SlotView {
            paths: texts(self.paths@),
            request: self.request,
            shown: self.shown,
            error: opt_text(self.error),
        }
    }
}

pub open spec fn empty_slot() -> SlotView {
    SlotView { paths: Seq::empty(), request: None, shown: false, error: None }
}

/// A preview that has been asked for.
pub open spec fn asked(paths: Seq<Seq<char>>, id: u64) -> SlotView {
    SlotView { paths, request: Some(id), shown: false, error: None }
}

/// A preview that has come, or failed to.
pub open spec fn answered(slot: SlotView, result: Result<(), Seq<char>>) -> SlotView {
    SlotView {
        paths: slot.paths,
        request: None,
        shown: result is Ok,
        error: match result {
            Ok(_) => None,
            Err(e) => Some(e),
        },
    }
}

impl PreviewSlot {
    fn empty() -> (r: Self)
        ensures
            r@ == empty_slot(),
    {
        let r = PreviewSlot { paths: Vec::new(), request: None, shown: false, error: None };
        assert(r@.paths =~= Seq::<Seq<char>>::empty());
        r
    }

    fn ask(paths: &Vec<String>, id: u64) -> (r: Self)
        ensures
            r@ == asked(texts(paths@), id),
    {
        PreviewSlot { paths: copy_list(paths), request: Some(id), shown: false, error: None }
    }

    fn answer(&mut self, result: &Result<(), EngineError>)
        ensures
            final(self)@ == answered(old(self)@, outcome_view(*result)),
    {
        self.request = None;
        match result {
            Ok(()) => {
                self.shown = true;
                self.error = None;
            },
            Err(e) => {
                self.shown = false;
                self.error = Some(e.message());
            },
        }
    }

    fn waits_for(&self, id: u64, paths: &Vec<String>) -> (r: bool)
        ensures
            r == (self@.request == Some(id) && self@.paths == texts(paths@)),
    {
        match self.request {
            Some(request) => request == id && same_texts(&self.paths, paths),
            None => false,
        }
    }
}

/// A photo of the review.
#[derive(Debug, PartialEq, Eq)]
pub struct ReviewPhoto {
    pub path: String,
    pub included: bool,
}

/// The contents of a `ReviewPhoto`.
pub struct PhotoView {
    pub path: Seq<char>,
    pub included: bool,
}

impl View for ReviewPhoto {
    type V = PhotoView;

    open spec fn view(&self) -> PhotoView {
        PhotoView { path: self.path@, included: self.included }
    }
}

pub open spec fn photo_views(photos: Seq<ReviewPhoto>) -> Seq<PhotoView> {
    photos.map_values(|p: ReviewPhoto| p@)
}

pub open spec fn photo_paths(photos: Seq<PhotoView>) -> Seq<Seq<char>> {
    photos.map_values(|p: PhotoView| p.path)
}

pub open spec fn is_included() -> spec_fn(PhotoView) -> bool {
    |p: PhotoView| p.included
}

pub open spec fn included_paths(photos: Seq<PhotoView>) -> Seq<Seq<char>> {
    photo_paths(photos.filter(is_included()))
}

/// The review window.
#[derive(Debug, PartialEq, Eq)]
pub struct PhotoReviewState {
    pub task_id: String,
    pub photos: Vec<ReviewPhoto>,
    pub editable: bool,
    pub selected: Option<usize>,
    pub preview: PreviewSlot,
    pub thumbnails: Thumbnails,
    pub tab: PhotoReviewTab,
    pub slide_groups: Vec<Vec<String>>,
    pub slide_selected: Option<usize>,
    pub slide_preview: PreviewSlot,
    pub slide_thumbnails: Thumbnails,
    pub slide_groups_request: Option<u64>,
    /// The slides no longer fit the photos.
    pub slides_dirty: bool,
}

/// The contents of a `PhotoReviewState`.
pub struct ReviewView {
    pub task_id: Seq<char>,
    pub photos: Seq<PhotoView>,
    pub editable: bool,
    pub selected: Option<usize>,
    pub preview: SlotView,
    pub thumbnails: ThumbnailMap,
    pub tab: PhotoReviewTab,
    pub slide_groups: Seq<Seq<Seq<char>>>,
    pub slide_selected: Option<usize>,
    pub slide_preview: SlotView,
    pub slide_thumbnails: ThumbnailMap,
    pub slide_groups_request: Option<u64>,
    pub slides_dirty: bool,
}

impl View for PhotoReviewState {
    type V = ReviewView;

    open spec fn view(&self) -> ReviewView {
        ReviewView {
            task_id: self.task_id@,
            photos: photo_views(self.photos@),
            editable: self.editable,
            selected: self.selected,
            preview: self.preview@,
            thumbnails: self.thumbnails@,
            tab: self.tab,
            slide_groups: group_texts(self.slide_groups@),
            slide_selected: self.slide_selected,
            slide_preview: self.slide_preview@,
            slide_thumbnails: self.slide_thumbnails@,
            slide_groups_request: self.slide_groups_request,
            slides_dirty: self.slides_dirty,
        }
    }
}

impl ReviewView {
    /// The photos changed, so the slides have to be made anew.
    pub open spec fn edited(self, photos: Seq<PhotoView>, selected: Option<usize>) -> ReviewView {
        ReviewView { photos, selected, slides_dirty: true, slide_groups_request: None, ..self }
    }

    /// The selected photo.
    pub open spec fn selected_path(self) -> Option<Seq<char>> {
        match self.selected {
            Some(i) => if i < self.photos.len() {
                Some(self.photos[i as int].path)
            } else {
                None
            },
            None => None,
        }
    }

    /// The photos of the selected slide.
    pub open spec fn selected_group(self) -> Option<Seq<Seq<char>>> {
        match self.slide_selected {
            Some(i) => if i < self.slide_groups.len() {
                Some(self.slide_groups[i as int])
            } else {
                None
            },
            None => None,
        }
    }
}

/// A slideshow whose photos may still change: it is not running or done, and nothing of it is converted.
pub open spec fn is_editable(status: QueueStatus, converted: nat) -> bool {
    status != QueueStatus::Completed && status != QueueStatus::Running && status
        != QueueStatus::Paused && converted == 0
}

pub fn slideshow_review_is_editable(task: &QueueTask, converted_count: usize) -> (r: bool)
    ensures
        r == is_editable(task@.status, converted_count as nat),
{
    task.status != QueueStatus::Completed && task.status != QueueStatus::Running && task.status
        != QueueStatus::Paused && converted_count == 0
}

/// The photos that a review starts from.
pub open spec fn reviewed_paths(t: TaskView, folder_photos: Seq<Seq<char>>) -> Seq<Seq<char>> {
    if t.settings.slideshow_review_image_paths.len() > 0 {
        t.settings.slideshow_review_image_paths
    } else if t.settings.slideshow_image_paths.len() > 0 {
        t.settings.slideshow_image_paths
    } else {
        folder_photos
    }
}

pub open spec fn starting_photos(t: TaskView, folder_photos: Seq<Seq<char>>) -> Seq<PhotoView> {
    reviewed_paths(t, folder_photos).map_values(
        |p: Seq<char>|
            PhotoView {
                path: p,
                included: t.settings.slideshow_review_image_paths.len() == 0
                    || has_path(t.settings.slideshow_image_paths, p),
            },
    )
}

/// A review as it opens.
pub open spec fn opened(t: TaskView, folder_photos: Seq<Seq<char>>, converted: nat) -> ReviewView {
    ReviewView {
        task_id: t.id,
        photos: starting_photos(t, folder_photos),
        editable: is_editable(t.status, converted),
        selected: Some(0),
        preview: empty_slot(),
        thumbnails: Map::empty(),
        tab: PhotoReviewTab::OriginalPhotos,
        slide_groups: Seq::empty(),
        slide_selected: None,
        slide_preview: empty_slot(),
        slide_thumbnails: Map::empty(),
        slide_groups_request: None,
        slides_dirty: true,
    }
}

/// What came of opening a review.
#[derive(Debug, Clone, Copy, PartialEq, Eq, Structural)]
pub enum ReviewOpening {
    NotASlideshow,
    NoPhotos,
    Opened,
}

impl ReviewOpening {
    /// What is said where a review could not open.
    pub fn message(self) -> (r: Option<&'static str>)
        ensures
            match r {
                Some(text) => self == ReviewOpening::NoPhotos && text@
                    == "No supported photos were found for this slideshow."@,
                None => self != ReviewOpening::NoPhotos,
            },
    {
        match self {
            ReviewOpening::NoPhotos => Some("No supported photos were found for this slideshow."),
            ReviewOpening::NotASlideshow | ReviewOpening::Opened => None,
        }
    }
}

/// The photos of the first target of a task.
pub open spec fn first_photos(d: DiskView, t: TaskView) -> Seq<Seq<char>> {
    if t.targets.len() > 0 {
        photo_files(d, t.targets[0])
    } else {
        Seq::empty()
    }
}

/// The photos that a review starts from where its task has none of its own.
pub fn folder_photos(disk: &Disk, task: &QueueTask) -> (r: Vec<String>)
    ensures
        texts(r@) == first_photos(disk@, task@),
{
    if task.targets.len() > 0 {
        assert(task@.targets[0] == task.targets@[0]@);
        collect_photo_files(disk, task.targets[0].as_str())
    } else {
        let r: Vec<String> = Vec::new();
        assert(texts(r@) =~= Seq::<Seq<char>>::empty());
        r
    }
}

/// The photos that a review keeps, and their order.
#[derive(Debug, PartialEq, Eq)]
pub struct ReviewedPhotos {
    pub task_id: String,
    pub selected: Vec<String>,
    pub ordered: Vec<String>,
}

impl PhotoReviewState {
    /// Includes every photo, or none.
    pub fn include_all(&mut self, included: bool)
        ensures
            final(self)@ == if old(self)@.editable {
                old(self)@.edited(
                    old(self)@.photos.map_values(|p: PhotoView| PhotoView { included, ..p }),
                    old(self)@.selected,
                )
            } else {
                old(self)@
            },
    {
        if !self.editable {
            return;
        }
        let ghost wanted = self@.photos.map_values(|p: PhotoView| PhotoView { included, ..p });
        let ghost start = self@;
        let mut photos: Vec<ReviewPhoto> = Vec::new();
        let mut i: usize = 0;
        while i < self.photos.len()
            invariant
                i <= self.photos@.len(),
                start == self@,
                wanted == start.photos.map_values(|p: PhotoView| PhotoView { included, ..p }),
                photo_views(photos@) == wanted.take(i as int),
            decreases self.photos@.len() - i,
        {
            let ghost before = photo_views(photos@);
            assert(start.photos[i as int] == self.photos@[i as int]@);
            photos.push(ReviewPhoto { path: self.photos[i].path.clone(), included });
            assert(photo_views(photos@) =~= before.push(wanted[i as int]));
            i = i + 1;
            assert(photo_views(photos@) =~= wanted.take(i as int));
        }
        self.photos = photos;
        assert(photo_views(self.photos@) =~= wanted);
        self.slides_dirty = true;
        self.slide_groups_request = None;
    }

    /// Includes or excludes one photo.
    pub fn set_included(&mut self, index: usize, included: bool)
        ensures
            final(self)@ == if old(self)@.editable && index < old(self)@.photos.len() {
                old(self)@.edited(
                    old(self)@.photos.update(
                        index as int,
                        PhotoView { included, ..old(self)@.photos[index as int] },
                    ),
                    old(self)@.selected,
                )
            } else {
                old(self)@
            },
    {
        if !self.editable || index >= self.photos.len() {
            return;
        }
        let ghost start = self@;
        let photo = ReviewPhoto { path: self.photos[index].path.clone(), included };
        assert(start.photos[index as int] == self.photos@[index as int]@);
        self.photos.set(index, photo);
        assert(photo_views(self.photos@) =~= start.photos.update(
            index as int,
            PhotoView { included, ..start.photos[index as int] },
        ));
        self.slides_dirty = true;
        self.slide_groups_request = None;
    }

    pub fn select_photo(&mut self, index: usize)
        ensures
            final(self)@ == (ReviewView { selected: Some(index), ..old(self)@ }),
    {
        self.selected = Some(index);
    }

    pub fn select_slide(&mut self, index: usize)
        ensures
            final(self)@ == (ReviewView { slide_selected: Some(index), ..old(self)@ }),
    {
        self.slide_selected = Some(index);
    }

    pub fn show_tab(&mut self, tab: PhotoReviewTab)
        ensures
            final(self)@ == (ReviewView { tab, ..old(self)@ }),
    {
        self.tab = tab;
    }

    /// Moves a photo to the gap before the photo at `insertion`, and says whether it could.
    pub fn reorder(&mut self, source: usize, insertion: usize) -> (r: bool)
        ensures
            r == (old(self)@.editable && source < old(self)@.photos.len() && insertion
                <= old(self)@.photos.len()),
            final(self)@ == if r {
                old(self)@.edited(
                    moved(
                        old(self)@.photos,
                        source as int,
                        landing(source as int, insertion as int),
                    ),
                    Some(landing(source as int, insertion as int) as usize),
                )
            } else {
                old(self)@
            },
    {
        if !self.editable {
            return false;
        }
        let ghost start = self@;
        match move_item_to_insertion(&mut self.photos, source, insertion) {
            Some(at) => {
                self.selected = Some(at);
                self.slides_dirty = true;
                self.slide_groups_request = None;
                assert(photo_views(self.photos@) =~= moved(start.photos, source as int, at as int));
                true
            },
            None => {
                assert(photo_views(self.photos@) =~= start.photos);
                false
            },
        }
    }

    /// Swaps the selected photo with the one before it.
    pub fn move_earlier(&mut self)
        ensures
            final(self)@ == match old(self)@.selected {
                Some(i) => if old(self)@.editable && 0 < i < old(self)@.photos.len() {
                    old(self)@.edited(
                        moved(old(self)@.photos, i as int, i - 1),
                        Some((i - 1) as usize),
                    )
                } else {
                    old(self)@
                },
                None => old(self)@,
            },
    {
        if let Some(i) = self.selected {
            if i > 0 && i < self.photos.len() {
                let _ = self.reorder(i, i - 1);
            }
        }
    }

    /// Swaps the selected photo with the one after it.
    pub fn move_later(&mut self)
        ensures
            final(self)@ == match old(self)@.selected {
                Some(i) => if old(self)@.editable && i + 1 < old(self)@.photos.len() {
                    old(self)@.edited(
                        moved(old(self)@.photos, i as int, i + 1),
                        Some((i + 1) as usize),
                    )
                } else {
                    old(self)@
                },
                None => old(self)@,
            },
    {
        if let Some(i) = self.selected {
            if i < self.photos.len() && self.photos.len() - i > 1 {
                let n: usize = self.photos.len();
                if n - i == 2 {
                    let _ = self.reorder(i, n);
                } else {
                    let _ = self.reorder(i, i + 2);
                }
            }
        }
    }

    /// The paths of the included photos.
    pub fn included(&self) -> (r: Vec<String>)
        ensures
            texts(r@) == included_paths(self@.photos),
    {
        let ghost all = self@.photos;
        let mut r: Vec<String> = Vec::new();
        let mut i: usize = 0;
        assert(all.take(0) =~= Seq::<PhotoView>::empty());
        assert(texts(r@) =~= included_paths(all.take(0))) by {
            reveal(Seq::filter);
        }
        while i < self.photos.len()
            invariant
                i <= self.photos@.len(),
                all == photo_views(self.photos@),
                texts(r@) == included_paths(all.take(i as int)),
            decreases self.photos@.len() - i,
        {
            let ghost item = all[i as int];
            assert(item == self.photos@[i as int]@);
            assert(all.take(i + 1).drop_last() =~= all.take(i as int));
            assert(all.take(i + 1).last() == item);
            let ghost before = texts(r@);
            if self.photos[i].included {
                r.push(self.photos[i].path.clone());
                assert(texts(r@) =~= before.push(item.path));
            }
            assert(texts(r@) =~= included_paths(all.take(i + 1))) by {
                reveal(Seq::filter);
            }
            i = i + 1;
        }
        assert(all.take(i as int) =~= all);
        r
    }

    /// The paths of all photos, in their order.
    pub fn ordered(&self) -> (r: Vec<String>)
        ensures
            texts(r@) == photo_paths(self@.photos),
    {
        let ghost all = photo_paths(self@.photos);
        let mut r: Vec<String> = Vec::new();
        let mut i: usize = 0;
        while i < self.photos.len()
            invariant
                i <= self.photos@.len(),
                all == photo_paths(photo_views(self.photos@)),
                texts(r@) == all.take(i as int),
            decreases self.photos@.len() - i,
        {
            let ghost before = texts(r@);
            assert(all[i as int] == self.photos@[i as int].path@);
            r.push(self.photos[i].path.clone());
            assert(texts(r@) =~= before.push(all[i as int]));
            i = i + 1;
            assert(texts(r@) =~= all.take(i as int));
        }
        assert(all.take(i as int) =~= all);
        r
    }

    /// The review's outcome; it must keep at least two photos.
    pub fn apply(&self) -> (r: Option<ReviewedPhotos>)
        ensures
            match r {
                Some(kept) => included_paths(self@.photos).len() >= 2 && kept.task_id@
                    == self@.task_id && texts(kept.selected@) == included_paths(self@.photos)
                    && texts(kept.ordered@) == photo_paths(self@.photos),
                None => included_paths(self@.photos).len() < 2,
            },
    {
        let selected = self.included();
        assert(selected@.len() == texts(selected@).len());
        if selected.len() < 2 {
            return None;
        }
        let ordered = self.ordered();
        Some(ReviewedPhotos { task_id: self.task_id.clone(), selected, ordered })
    }
}

/// The review window, the viewer of one photo, and the number of the next request.
#[derive(Debug, PartialEq, Eq)]
pub struct ReviewDesk {
    pub review: Option<PhotoReviewState>,
    pub viewer: Option<PreviewSlot>,
    pub next_request_id: u64,
}

/// The contents of a `ReviewDesk`.
pub struct DeskView {
    pub review: Option<ReviewView>,
    pub viewer: Option<SlotView>,
    pub next_request_id: u64,
}

impl View for ReviewDesk {
    type V = DeskView;

    open spec fn view(&self) -> DeskView {
        DeskView {
            review: match self.review {
                Some(review) => Some(review@),
                None => None,
            },
            viewer: match self.viewer {
                Some(viewer) => Some(viewer@),
                None => None,
            },
            next_request_id: self.next_request_id,
        }
    }
}

/// The number after `n`; numbers start over at one.
pub open spec fn number_after(n: u64) -> u64 {
    if n == u64::MAX {
        1
    } else {
        (n + 1) as u64
    }
}

impl DeskView {
    pub open spec fn with_review(self, review: ReviewView) -> DeskView {
        DeskView { review: Some(review), ..self }
    }

    /// A request takes the next number.
    pub open spec fn numbered(self) -> DeskView {
        DeskView { next_request_id: number_after(self.next_request_id), ..self }
    }

    /// Asks for a preview of the selected photo, unless there is one or one is on its way.
    pub open spec fn preview_refreshed(self) -> (DeskView, Option<RequestView>) {
        match self.review {
            None => (self, None),
            Some(v) => match v.selected_path() {
                None => (self, None),
                Some(path) => if v.preview.paths == seq![path] && (v.preview.request is Some
                    || v.preview.shown || v.preview.error is Some) {
                    (self, None)
                } else {
                    (
                        self.numbered().with_review(
                            ReviewView { preview: asked(seq![path], self.next_request_id), ..v },
                        ),
                        Some(
                            RequestView::Photo {
                                request_id: self.next_request_id,
                                target: ReviewPhotoTarget::Review,
                                path,
                                maximum_width: 640,
                                maximum_height: 360,
                            },
                        ),
                    )
                },
            },
        }
    }

    /// Asks for the slides of the included photos, unless they are on their way.
    pub open spec fn groups_refreshed(self, collage: bool) -> (DeskView, Option<RequestView>) {
        match self.review {
            None => (self, None),
            Some(v) => if v.slide_groups_request is Some {
                (self, None)
            } else {
                (
                    self.numbered().with_review(
                        ReviewView {
                            slide_groups_request: Some(self.next_request_id),
                            slide_preview: empty_slot(),
                            ..v
                        },
                    ),
                    Some(
                        RequestView::SlideGroups {
                            request_id: self.next_request_id,
                            paths: included_paths(v.photos),
                            collage,
                        },
                    ),
                )
            },
        }
    }

    /// Asks for a preview of the selected slide, unless it is the one already asked for.
    pub open spec fn slide_refreshed(self, collage: bool) -> (DeskView, Option<RequestView>) {
        match self.review {
            None => (self, None),
            Some(v) => match v.selected_group() {
                None => (self, None),
                Some(paths) => if v.slide_preview.paths == paths {
                    (self, None)
                } else {
                    (
                        self.numbered().with_review(
                            ReviewView { slide_preview: asked(paths, self.next_request_id), ..v },
                        ),
                        Some(
                            RequestView::SlidePreview {
                                request_id: self.next_request_id,
                                target: ReviewSlideTarget::Selected,
                                paths,
                                collage,
                                width: 640,
                                height: 360,
                            },
                        ),
                    )
                },
            },
        }
    }

    /// Asks for the small image of a photo of which nothing is known yet.
    pub open spec fn thumbnail_asked(self, path: Seq<char>) -> (DeskView, Option<RequestView>) {
        match self.review {
            None => (self, None),
            Some(v) => if v.thumbnails.contains_key(seq![path]) {
                (self, None)
            } else {
                (
                    self.numbered().with_review(
                        ReviewView {
                            thumbnails: v.thumbnails.insert(
                                seq![path],
                                ThumbnailState::Requested(self.next_request_id),
                            ),
                            ..v
                        },
                    ),
                    Some(
                        RequestView::Photo {
                            request_id: self.next_request_id,
                            target: ReviewPhotoTarget::Thumbnail,
                            path,
                            maximum_width: 96,
                            maximum_height: 64,
                        },
                    ),
                )
            },
        }
    }

    /// Asks for the small image of a slide of which nothing is known yet.
    pub open spec fn slide_thumbnail_asked(self, paths: Seq<Seq<char>>, collage: bool) -> (
        DeskView,
        Option<RequestView>,
    ) {
        match self.review {
            None => (self, None),
            Some(v) => if v.slide_thumbnails.contains_key(paths) {
                (self, None)
            } else {
                (
                    self.numbered().with_review(
                        ReviewView {
                            slide_thumbnails: v.slide_thumbnails.insert(
                                paths,
                                ThumbnailState::Requested(self.next_request_id),
                            ),
                            ..v
                        },
                    ),
                    Some(
                        RequestView::SlidePreview {
                            request_id: self.next_request_id,
                            target: ReviewSlideTarget::Thumbnail,
                            paths,
                            collage,
                            width: 128,
                            height: 72,
                        },
                    ),
                )
            },
        }
    }

    /// A result is used only if its request is still the current one for its place.
    pub open spec fn is_current(self, r: ResultView) -> bool {
        match r {
            ResultView::Photo { request_id, target, path, result } => match target {
                ReviewPhotoTarget::Review => self.review matches Some(v) && v.preview.request
                    == Some(request_id) && v.preview.paths == seq![path],
                ReviewPhotoTarget::Viewer => self.viewer matches Some(v) && v.request == Some(
                    request_id,
                ) && v.paths == seq![path],
                ReviewPhotoTarget::Thumbnail => self.review matches Some(v)
                    && v.thumbnails.contains_key(seq![path]) && v.thumbnails[seq![path]]
                    == ThumbnailState::Requested(request_id),
            },
            ResultView::SlideGroups { request_id, result } => self.review matches Some(v)
                && v.slide_groups_request == Some(request_id),
            ResultView::SlidePreview { request_id, target, paths, result } => match target {
                ReviewSlideTarget::Selected => self.review matches Some(v)
                    && v.slide_preview.request == Some(request_id) && v.slide_preview.paths
                    == paths,
                ReviewSlideTarget::Thumbnail => self.review matches Some(v)
                    && v.slide_thumbnails.contains_key(paths) && v.slide_thumbnails[paths]
                    == ThumbnailState::Requested(request_id),
            },
        }
    }

    /// The desk after a result, and the request that follows from it.
    pub open spec fn accepted(self, r: ResultView, collage: bool) -> (
        DeskView,
        Option<RequestView>,
    ) {
        if !self.is_current(r) {
            (self, None)
        } else {
            let v = self.review->0;
            match r {
                ResultView::Photo { request_id, target, path, result } => match target {
                    ReviewPhotoTarget::Review => (
                        self.with_review(ReviewView { preview: answered(v.preview, result), ..v }),
                        None,
                    ),
                    ReviewPhotoTarget::Viewer => (
                        DeskView { viewer: Some(answered(self.viewer->0, result)), ..self },
                        None,
                    ),
                    ReviewPhotoTarget::Thumbnail => (
                        self.with_review(
                            ReviewView {
                                thumbnails: v.thumbnails.insert(seq![path], settled(result)),
                                ..v
                            },
                        ),
                        None,
                    ),
                },
                ResultView::SlideGroups { request_id, result } => {
                    let prepared = ReviewView {
                        slide_groups_request: None,
                        slides_dirty: false,
                        slide_thumbnails: Map::empty(),
                        slide_groups: match result {
                            Ok(groups) => groups,
                            Err(_) => Seq::empty(),
                        },
                        slide_selected: if result is Ok && result->Ok_0.len() > 0 {
                            Some(0usize)
                        } else {
                            None
                        },
                        slide_preview: SlotView {
                            error: match result {
                                Ok(_) => None,
                                Err(e) => Some(e),
                            },
                            ..empty_slot()
                        },
                        ..v
                    };
                    self.with_review(prepared).slide_refreshed(collage)
                },
                ResultView::SlidePreview { request_id, target, paths, result } => match target {
                    ReviewSlideTarget::Selected => (
                        self.with_review(
                            ReviewView { slide_preview: answered(v.slide_preview, result), ..v },
                        ),
                        None,
                    ),
                    ReviewSlideTarget::Thumbnail => (
                        self.with_review(
                            ReviewView {
                                slide_thumbnails: v.slide_thumbnails.insert(paths, settled(result)),
                                ..v
                            },
                        ),
                        None,
                    ),
                },
            }
        }
    }
}

pub open spec fn settled(result: Result<(), Seq<char>>) -> ThumbnailState {
    if result is Ok {
        ThumbnailState::Shown
    } else {
        ThumbnailState::Failed
    }
}

fn settle(result: &Result<(), EngineError>) -> (r: ThumbnailState)
    ensures
        r == settled(outcome_view(*result)),
{
    match result {
        Ok(()) => ThumbnailState::Shown,
        Err(_) => ThumbnailState::Failed,
    }
}

fn single(path: &str) -> (r: Vec<String>)
    ensures
        texts(r@) == seq![path@],
{
    let mut r: Vec<String> = Vec::new();
    r.push(path.to_owned());
    assert(texts(r@) =~= seq![path@]);
    r
}

impl ReviewDesk {
    pub fn new() -> (r: Self)
        ensures
            r@ == (DeskView { review: None, viewer: None, next_request_id: 1 }),
    {
        ReviewDesk { review: None, viewer: None, next_request_id: 1 }
    }

    /// Opens the review of a slideshow task.
    pub fn open_photo_review(
        &mut self,
        task: &QueueTask,
        folder_photos: &Vec<String>,
        converted_count: usize,
    ) -> (r: ReviewOpening)
        ensures
            r == if task@.settings.mode != ContentMode::PhotoSlideshow {
                ReviewOpening::NotASlideshow
            } else if reviewed_paths(task@, texts(folder_photos@)).len() == 0 {
                ReviewOpening::NoPhotos
            } else {
                ReviewOpening::Opened
            },
            final(self)@ == if r == ReviewOpening::Opened {
                old(self)@.with_review(
                    opened(task@, texts(folder_photos@), converted_count as nat),
                )
            } else {
                old(self)@
            },
    {
        if task.settings.mode != ContentMode::PhotoSlideshow {
            return ReviewOpening::NotASlideshow;
        }
        let had_order = task.settings.slideshow_review_image_paths.len() > 0;
        assert(texts(task.settings.slideshow_review_image_paths@).len()
            == task.settings.slideshow_review_image_paths@.len());
        assert(texts(task.settings.slideshow_image_paths@).len()
            == task.settings.slideshow_image_paths@.len());
        assert(texts(folder_photos@).len() == folder_photos@.len());
        let paths = if had_order {
            &task.settings.slideshow_review_image_paths
        } else if task.settings.slideshow_image_paths.len() > 0 {
            &task.settings.slideshow_image_paths
        } else {
            folder_photos
        };
        if paths.len() == 0 {
            return ReviewOpening::NoPhotos;
        }
        let ghost wanted = starting_photos(task@, texts(folder_photos@));
        let ghost list = reviewed_paths(task@, texts(folder_photos@));
        assert(texts(paths@) == list);
        let chosen = plain_paths(&task.settings.slideshow_image_paths);
        let mut photos: Vec<ReviewPhoto> = Vec::new();
        let mut i: usize = 0;
        while i < paths.len()
            invariant
                i <= paths@.len(),
                list == texts(paths@),
                wanted.len() == list.len(),
                had_order == (task@.settings.slideshow_review_image_paths.len() > 0),
                texts(chosen@) == plains(task@.settings.slideshow_image_paths),
                forall|k: int|
                    0 <= k < wanted.len() ==> #[trigger] wanted[k] == (PhotoView {
                        path: list[k],
                        included: !had_order || has_path(
                            task@.settings.slideshow_image_paths,
                            list[k],
                        ),
                    }),
                photo_views(photos@) == wanted.take(i as int),
            decreases paths@.len() - i,
        {
            let ghost before = photo_views(photos@);
            let included = !had_order || list_contains(
                &chosen,
                plain_path(paths[i].as_str()).as_str(),
            );
            photos.push(ReviewPhoto { path: paths[i].clone(), included });
            assert(photo_views(photos@) =~= before.push(wanted[i as int]));
            i = i + 1;
            assert(photo_views(photos@) =~= wanted.take(i as int));
        }
        assert(photo_views(photos@) =~= wanted);
        let editable = slideshow_review_is_editable(task, converted_count);
        let slide_groups: Vec<Vec<String>> = Vec::new();
        assert(group_texts(slide_groups@) =~= Seq::<Seq<Seq<char>>>::empty());
        self.review = Some(
            PhotoReviewState {
                task_id: task.id.clone(),
                photos,
                editable,
                selected: Some(0),
                preview: PreviewSlot::empty(),
                thumbnails: Thumbnails::new(),
                tab: PhotoReviewTab::OriginalPhotos,
                slide_groups,
                slide_selected: None,
                slide_preview: PreviewSlot::empty(),
                slide_thumbnails: Thumbnails::new(),
                slide_groups_request: None,
                slides_dirty: true,
            },
        );
        ReviewOpening::Opened
    }

    pub fn close_review(&mut self)
        ensures
            final(self)@ == (DeskView { review: None, ..old(self)@ }),
    {
        self.review = None;
    }

    pub fn close_viewer(&mut self)
        ensures
            final(self)@ == (DeskView { viewer: None, ..old(self)@ }),
    {
        self.viewer = None;
    }

    fn next_review_request_id(&mut self) -> (r: u64)
        ensures
            r == old(self)@.next_request_id,
            final(self)@ == old(self)@.numbered(),
            final(self).review == old(self).review,
    {
        let id: u64 = self.next_request_id;
        self.next_request_id = if id == u64::MAX {
            1
        } else {
            id + 1
        };
        id
    }

    /// Opens the viewer on a photo.
    pub fn open_photo_viewer(&mut self, path: String) -> (r: ReviewWorkerRequest)
        ensures
            final(self)@ == (DeskView {
                viewer: Some(asked(seq![path@], old(self)@.next_request_id)),
                ..old(self)@.numbered()
            }),
            r@ == (RequestView::Photo {
                request_id: old(self)@.next_request_id,
                target: ReviewPhotoTarget::Viewer,
                path: path@,
                maximum_width: 4096,
                maximum_height: 4096,
            }),
    {
        let request_id: u64 = self.next_review_request_id();
        let paths = single(path.as_str());
        self.viewer = Some(PreviewSlot::ask(&paths, request_id));
        ReviewWorkerRequest::Photo {
            request_id,
            target: ReviewPhotoTarget::Viewer,
            path,
            maximum_width: 4096,
            maximum_height: 4096,
        }
    }

    pub fn refresh_photo_review_preview(&mut self) -> (r: Option<ReviewWorkerRequest>)
        ensures
            (final(self)@, opt_request(r)) == old(self)@.preview_refreshed(),
    {
        let path = match &self.review {
            Some(review) => match review.selected {
                Some(index) => if index < review.photos.len() {
                    review.photos[index].path.clone()
                } else {
                    return None;
                },
                None => {
                    return None;
                },
            },
            None => {
                return None;
            },
        };
        let paths = single(path.as_str());
        if let Some(review) = &self.review {
            if same_texts(&review.preview.paths, &paths) && (review.preview.request.is_some()
                || review.preview.shown || review.preview.error.is_some()) {
                return None;
            }
        }
        let request_id: u64 = self.next_review_request_id();
        if let Some(review) = &mut self.review {
            review.preview = PreviewSlot::ask(&paths, request_id);
        }
        Some(
            ReviewWorkerRequest::Photo {
                request_id,
                target: ReviewPhotoTarget::Review,
                path,
                maximum_width: 640,
                maximum_height: 360,
            },
        )
    }

    pub fn refresh_photo_review_slide_groups(&mut self, collage: bool) -> (r: Option<
        ReviewWorkerRequest,
    >)
        ensures
            (final(self)@, opt_request(r)) == old(self)@.groups_refreshed(collage),
    {
        let paths = match &self.review {
            Some(review) => {
                if review.slide_groups_request.is_some() {
                    return None;
                }
                review.included()
            },
            None => {
                return None;
            },
        };
        let request_id: u64 = self.next_review_request_id();
        if let Some(review) = &mut self.review {
            review.slide_groups_request = Some(request_id);
            review.slide_preview = PreviewSlot::empty();
        }
        Some(ReviewWorkerRequest::SlideGroups { request_id, paths, collage })
    }

    pub fn refresh_photo_review_slide_preview(&mut self, collage: bool) -> (r: Option<
        ReviewWorkerRequest,
    >)
        ensures
            (final(self)@, opt_request(r)) == old(self)@.slide_refreshed(collage),
    {
        let paths = match &self.review {
            Some(review) => match review.slide_selected {
                Some(index) => if index < review.slide_groups.len() {
                    copy_list(&review.slide_groups[index])
                } else {
                    return None;
                },
                None => {
                    return None;
                },
            },
            None => {
                return None;
            },
        };
        if let Some(review) = &self.review {
            if same_texts(&review.slide_preview.paths, &paths) {
                return None;
            }
        }
        let request_id: u64 = self.next_review_request_id();
        if let Some(review) = &mut self.review {
            review.slide_preview = PreviewSlot::ask(&paths, request_id);
        }
        Some(
            ReviewWorkerRequest::SlidePreview {
                request_id,
                target: ReviewSlideTarget::Selected,
                paths,
                collage,
                width: 640,
                height: 360,
            },
        )
    }

    /// Asks for the small image of a photo.
    pub fn schedule_review_thumbnail(&mut self, path: &str) -> (r: Option<ReviewWorkerRequest>)
        ensures
            (final(self)@, opt_request(r)) == old(self)@.thumbnail_asked(path@),
    {
        let paths = single(path);
        match &self.review {
            Some(review) => {
                if review.thumbnails.state_of(&paths).is_some() {
                    return None;
                }
            },
            None => {
                return None;
            },
        }
        let request_id: u64 = self.next_review_request_id();
        if let Some(review) = &mut self.review {
            review.thumbnails.set(&paths, ThumbnailState::Requested(request_id));
        }
        Some(
            ReviewWorkerRequest::Photo {
                request_id,
                target: ReviewPhotoTarget::Thumbnail,
                path: path.to_owned(),
                maximum_width: 96,
                maximum_height: 64,
            },
        )
    }

    /// Asks for the small image of a slide.
    pub fn schedule_review_slide_thumbnail(&mut self, paths: &Vec<String>, collage: bool) -> (r:
        Option<ReviewWorkerRequest>)
        ensures
            (final(self)@, opt_request(r)) == old(self)@.slide_thumbnail_asked(
                texts(paths@),
                collage,
            ),
    {
        match &self.review {
            Some(review) => {
                if review.slide_thumbnails.state_of(paths).is_some() {
                    return None;
                }
            },
            None => {
                return None;
            },
        }
        let request_id: u64 = self.next_review_request_id();
        if let Some(review) = &mut self.review {
            review.slide_thumbnails.set(paths, ThumbnailState::Requested(request_id));
        }
        Some(
            ReviewWorkerRequest::SlidePreview {
                request_id,
                target: ReviewSlideTarget::Thumbnail,
                paths: copy_list(paths),
                collage,
                width: 128,
                height: 72,
            },
        )
    }
}

impl ReviewDesk {
    fn photo_result(
        &mut self,
        request_id: u64,
        target: ReviewPhotoTarget,
        path: &str,
        result: &Result<(), EngineError>,
    )
        ensures
            forall|collage: bool|
                (final(self)@, None::<RequestView>) == (#[trigger] old(self)@.accepted(
                    ResultView::Photo {
                        request_id,
                        target,
                        path: path@,
                        result: outcome_view(*result),
                    },
                    collage,
                )),
    {
        let paths = single(path);
        match target {
            ReviewPhotoTarget::Review => {
                if let Some(review) = &mut self.review {
                    if review.preview.waits_for(request_id, &paths) {
                        review.preview.answer(result);
                    }
                }
            },
            ReviewPhotoTarget::Viewer => {
                if let Some(viewer) = &mut self.viewer {
                    if viewer.waits_for(request_id, &paths) {
                        viewer.answer(result);
                    }
                }
            },
            ReviewPhotoTarget::Thumbnail => {
                if let Some(review) = &mut self.review {
                    match review.thumbnails.state_of(&paths) {
                        Some(ThumbnailState::Requested(id)) => {
                            if id == request_id {
                                review.thumbnails.set(&paths, settle(result));
                            }
                        },
                        _ => {},
                    }
                }
            },
        }
    }

    fn slide_result(
        &mut self,
        request_id: u64,
        target: ReviewSlideTarget,
        paths: &Vec<String>,
        result: &Result<(), EngineError>,
    )
        ensures
            forall|collage: bool|
                (final(self)@, None::<RequestView>) == (#[trigger] old(self)@.accepted(
                    ResultView::SlidePreview {
                        request_id,
                        target,
                        paths: texts(paths@),
                        result: outcome_view(*result),
                    },
                    collage,
                )),
    {
        match target {
            ReviewSlideTarget::Selected => {
                if let Some(review) = &mut self.review {
                    if review.slide_preview.waits_for(request_id, paths) {
                        review.slide_preview.answer(result);
                    }
                }
            },
            ReviewSlideTarget::Thumbnail => {
                if let Some(review) = &mut self.review {
                    match review.slide_thumbnails.state_of(paths) {
                        Some(ThumbnailState::Requested(id)) => {
                            if id == request_id {
                                review.slide_thumbnails.set(paths, settle(result));
                            }
                        },
                        _ => {},
                    }
                }
            },
        }
    }

    fn groups_result(
        &mut self,
        request_id: u64,
        result: Result<Vec<Vec<String>>, EngineError>,
        collage: bool,
    ) -> (r: Option<ReviewWorkerRequest>)
        ensures
            (final(self)@, opt_request(r)) == old(self)@.accepted(
                (ReviewWorkerResult::SlideGroups { request_id, result })@,
                collage,
            ),
    {
        match &mut self.review {
            Some(review) => {
                match review.slide_groups_request {
                    Some(id) => {
                        if id != request_id {
                            return None;
                        }
                    },
                    None => {
                        return None;
                    },
                }
                review.slide_groups_request = None;
                review.slides_dirty = false;
                review.slide_thumbnails.clear();
                review.slide_preview = PreviewSlot::empty();
                match result {
                    Ok(groups) => {
                        assert(group_texts(groups@).len() == groups@.len());
                        review.slide_selected = if groups.len() > 0 {
                            Some(0)
                        } else {
                            None
                        };
                        review.slide_groups = groups;
                    },
                    Err(error) => {
                        review.slide_groups = Vec::new();
                        assert(group_texts(review.slide_groups@) =~= Seq::<
                            Seq<Seq<char>>,
                        >::empty());
                        review.slide_selected = None;
                        review.slide_preview.error = Some(error.message());
                    },
                }
            },
            None => {
                return None;
            },
        }
        self.refresh_photo_review_slide_preview(collage)
    }

    /// Whether a result of the preview worker still answers what is shown, so that its picture is to be
    /// kept.
    pub fn is_current(&self, result: &ReviewWorkerResult) -> (r: bool)
        ensures
            r == self@.is_current(result@),
    {
        match result {
            ReviewWorkerResult::Photo { request_id, target, path, .. } => {
                let paths = single(path.as_str());
                match target {
                    ReviewPhotoTarget::Review => match &self.review {
                        Some(review) => review.preview.waits_for(*request_id, &paths),
                        None => false,
                    },
                    ReviewPhotoTarget::Viewer => match &self.viewer {
                        Some(viewer) => viewer.waits_for(*request_id, &paths),
                        None => false,
                    },
                    ReviewPhotoTarget::Thumbnail => match &self.review {
                        Some(review) => match review.thumbnails.state_of(&paths) {
                            Some(ThumbnailState::Requested(id)) => id == *request_id,
                            _ => false,
                        },
                        None => false,
                    },
                }
            },
            ReviewWorkerResult::SlideGroups { request_id, .. } => match &self.review {
                Some(review) => match review.slide_groups_request {
                    Some(id) => id == *request_id,
                    None => false,
                },
                None => false,
            },
            ReviewWorkerResult::SlidePreview { request_id, target, paths, .. } => match target {
                ReviewSlideTarget::Selected => match &self.review {
                    Some(review) => review.slide_preview.waits_for(*request_id, paths),
                    None => false,
                },
                ReviewSlideTarget::Thumbnail => match &self.review {
                    Some(review) => match review.slide_thumbnails.state_of(paths) {
                        Some(ThumbnailState::Requested(id)) => id == *request_id,
                        _ => false,
                    },
                    None => false,
                },
            },
        }
    }

    /// Takes a result of the preview worker and returns the request that follows from it.
    pub fn accept(&mut self, result: ReviewWorkerResult, collage: bool) -> (r: Option<
        ReviewWorkerRequest,
    >)
        ensures
            (final(self)@, opt_request(r)) == old(self)@.accepted(result@, collage),
    {
        match result {
            ReviewWorkerResult::Photo { request_id, target, path, result } => {
                self.photo_result(request_id, target, path.as_str(), &result);
                None
            },
            ReviewWorkerResult::SlideGroups { request_id, result } => {
                self.groups_result(request_id, result, collage)
            },
            ReviewWorkerResult::SlidePreview { request_id, target, paths, result } => {
                self.slide_result(request_id, target, &paths, &result);
                None
            },
        }
    }
}

/// The names of the photos that have one.
pub open spec fn name_of() -> spec_fn(Seq<char>) -> Option<Seq<char>> {
    |p: Seq<char>| file_name(p)
}

/// The words for a slide in the list of slides.
pub open spec fn slide_text(index: nat, group: Seq<Seq<char>>) -> Seq<char> {
    let names = join_texts(group.filter_map(name_of()), ", "@);
    if group.len() > 1 {
        "Slide "@ + decimal(index + 1) + " · "@ + decimal(group.len()) + " photos · "@ + names
    } else {
        "Slide "@ + decimal(index + 1) + " · "@ + names
    }
}

/// The words for a slide in the list of slides.
pub fn slide_label(index: usize, group: &Vec<String>) -> (r: String)
    ensures
        r@ == slide_text(index as nat, texts(group@)),
{
    let ghost all = texts(group@);
    let mut names: Vec<String> = Vec::new();
    let mut i: usize = 0;
    assert(all.take(0) =~= Seq::<Seq<char>>::empty());
    assert(texts(names@) =~= all.take(0).filter_map(name_of())) by {
        reveal(Seq::filter_map);
    }
    while i < group.len()
        invariant
            i <= group@.len(),
            all == texts(group@),
            texts(names@) == all.take(i as int).filter_map(name_of()),
        decreases group@.len() - i,
    {
        assert(all[i as int] == group@[i as int]@);
        proof {
            all.lemma_filter_map_take_succ(name_of(), i as int);
        }
        let ghost before = texts(names@);
        match path_file_name(group[i].as_str()) {
            Some(name) => {
                let ghost added = name@;
                names.push(name);
                assert(texts(names@) =~= before + seq![added]);
            },
            None => {},
        }
        i = i + 1;
    }
    assert(all.take(i as int) =~= all);
    let number = decimal_text(index as u128 + 1);
    let mut text = concat3("Slide ", number.as_str(), " · ");
    if group.len() > 1 {
        let count = decimal_text(group.len() as u128);
        text.append(count.as_str());
        text.append(" photos · ");
    }
    let joined = join_with(&names, ", ");
    text.append(joined.as_str());
    text
}

/// How many photos are included, in words.
pub fn review_heading(review: &PhotoReviewState) -> (r: String)
    ensures
        r@ == decimal(included_paths(review@.photos).len()) + " of "@ + decimal(
            review@.photos.len(),
        ) + " photos included. The order below is the slideshow order."@,
{
    let included = review.included();
    assert(texts(included@).len() == included@.len());
    assert(review@.photos.len() == review.photos@.len());
    let first = decimal_text(included.len() as u128);
    let second = decimal_text(review.photos.len() as u128);
    let mut text = concat3(first.as_str(), " of ", second.as_str());
    text.append(" photos included. The order below is the slideshow order.");
    text
}

/// A result whose request is no longer the current one changes nothing and asks for nothing.
pub proof fn law_stale_results_are_ignored(d: DeskView, r: ResultView, collage: bool)
    requires
        !d.is_current(r),
    ensures
        d.accepted(r, collage) == (d, None::<RequestView>),
{
}

/// A result is used at most once: it is no longer current after it was accepted.
pub proof fn law_results_are_used_once(d: DeskView, r: ResultView, collage: bool)
    requires
        d.is_current(r),
        1 <= d.next_request_id,
        match r {
            ResultView::Photo { request_id, .. } => request_id != d.next_request_id,
            ResultView::SlideGroups { request_id, .. } => request_id != d.next_request_id,
            ResultView::SlidePreview { request_id, .. } => request_id != d.next_request_id,
        },
    ensures
        !d.accepted(r, collage).0.is_current(r),
{
}

/// Request numbers are never zero.
pub proof fn law_request_numbers_are_positive(n: u64)
    ensures
        number_after(n) >= 1,
        n < u64::MAX ==> number_after(n) > n,
{
}

/// A new order of the photos holds the same photos, and the moved one is selected.
pub proof fn law_reordering_keeps_the_photos(v: ReviewView, source: int, insertion: int)
    requires
        0 <= source < v.photos.len() <= usize::MAX,
        0 <= insertion <= v.photos.len(),
    ensures
        ({
            let at = landing(source, insertion);
            let after = v.edited(moved(v.photos, source, at), Some(at as usize));
            &&& after.photos.to_multiset() == v.photos.to_multiset()
            &&& after.selected_path() == Some(v.photos[source].path)
            &&& after.slides_dirty && after.slide_groups_request is None
        }),
{
    crate::selection::law_moving_keeps_every_item(v.photos, source, insertion);
}

/// Slides that were asked for before the photos changed are never shown.
pub proof fn law_changed_photos_drop_pending_slides(
    d: DeskView,
    v: ReviewView,
    photos: Seq<PhotoView>,
    selected: Option<usize>,
    request_id: u64,
    result: Result<Seq<Seq<Seq<char>>>, Seq<char>>,
    collage: bool,
)
    requires
        d.review == Some(v),
    ensures
        d.with_review(v.edited(photos, selected)).accepted(
            ResultView::SlideGroups { request_id, result },
            collage,
        ) == (d.with_review(v.edited(photos, selected)), None::<RequestView>),
{
}

} // verus!
