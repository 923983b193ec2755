//! What a review of photos starts from, asks for, and shows.

use crate::paths::{file_name, has_path};
use crate::queue::{QueueStatus, TaskView};
use crate::review::{
    answered, included_paths, is_editable, opened, slide_text, DeskView, PhotoView, RequestView,
    ResultView, ReviewPhotoTarget, ReviewSlideTarget, ReviewView, SlotView,
};
use crate::text::decimal;
use crate::thumbnails::ThumbnailState;
use vstd::prelude::*;

verus! {

/// The photos of a slideshow may change while it waits, failed, or was stopped, and nothing of it is converted.
pub proof fn law_reviews_that_can_change(status: QueueStatus, converted: nat)
    ensures
        converted > 0 ==> !is_editable(status, converted),
        converted == 0 ==> match status {
            QueueStatus::Pending => is_editable(status, converted),
            QueueStatus::Failed => is_editable(status, converted),
            QueueStatus::Cancelled => is_editable(status, converted),
            QueueStatus::Completed => !is_editable(status, converted),
            QueueStatus::Running => !is_editable(status, converted),
            QueueStatus::Paused => !is_editable(status, converted),
        },
{
}

/// A review starts from the photos last reviewed, with those left out that the slideshow does not show; else from
/// the chosen photos, and else from those of the folder, all of them included.
pub proof fn law_reviews_start_from_the_photos(t: TaskView, folder: Seq<Seq<char>>, converted: nat, i: int)
    requires
        0 <= i < opened(t, folder, converted).photos.len(),
    ensures
        ({
            let photos = opened(t, folder, converted).photos;
            let reviewed = t.settings.slideshow_review_image_paths;
            let chosen = t.settings.slideshow_image_paths;
            &&& reviewed.len() > 0 ==> photos.len() == reviewed.len() && photos[i].path == reviewed[i]
                && photos[i].included == has_path(chosen, reviewed[i])
            &&& reviewed.len() == 0 && chosen.len() > 0 ==> photos.len() == chosen.len() && photos[i].path
                == chosen[i] && photos[i].included
            &&& reviewed.len() == 0 && chosen.len() == 0 ==> photos.len() == folder.len() && photos[i].path
                == folder[i] && photos[i].included
            &&& opened(t, folder, converted).task_id == t.id
            &&& opened(t, folder, converted).selected == Some(0usize)
            &&& opened(t, folder, converted).slides_dirty
        }),
{
}

/// The photos that a slideshow gets are the included ones, in their order.
pub proof fn law_included_photos(photos: Seq<PhotoView>, p: PhotoView)
    ensures
        p.included ==> included_paths(photos.push(p)) == included_paths(photos).push(p.path),
        !p.included ==> included_paths(photos.push(p)) == included_paths(photos),
{
    let test = crate::review::is_included();
    photos.lemma_filter_push(p, test);
    let kept = photos.filter(test);
    if p.included {
        assert(included_paths(photos.push(p)) =~= included_paths(photos).push(p.path));
    }
}

/// A preview is asked for the selected photo, in a size of 640 by 360, under the next number.
pub proof fn law_preview_of_the_selected_photo(d: DeskView, v: ReviewView, path: Seq<char>)
    requires
        d.review == Some(v),
        v.selected_path() == Some(path),
        v.preview.paths != seq![path],
    ensures
        d.preview_refreshed().1 == Some(
            RequestView::Photo {
                request_id: d.next_request_id,
                target: ReviewPhotoTarget::Review,
                path,
                maximum_width: 640,
                maximum_height: 360,
            },
        ),
        d.preview_refreshed().0.review matches Some(after) && after.preview.paths == seq![path]
            && after.preview.request == Some(d.next_request_id) && !after.preview.shown,
        d.preview_refreshed().0.next_request_id != d.next_request_id,
{
}

/// A preview that is there or on its way is not asked for again.
pub proof fn law_previews_are_asked_for_once(d: DeskView, v: ReviewView, path: Seq<char>)
    requires
        d.review == Some(v),
        v.selected_path() == Some(path),
        v.preview.paths == seq![path],
        v.preview.request is Some || v.preview.shown || v.preview.error is Some,
    ensures
        d.preview_refreshed() == (d, None::<RequestView>),
{
}

/// Slides are asked for of the included photos.
pub proof fn law_slides_are_of_the_included_photos(d: DeskView, v: ReviewView, collage: bool)
    requires
        d.review == Some(v),
    ensures
        v.slide_groups_request is None ==> d.groups_refreshed(collage).1 == Some(
            RequestView::SlideGroups {
                request_id: d.next_request_id,
                paths: included_paths(v.photos),
                collage,
            },
        ),
        v.slide_groups_request is Some ==> d.groups_refreshed(collage) == (d, None::<RequestView>),
{
}

/// Small images are 96 by 64 of a photo and 128 by 72 of a slide, and are asked for once.
pub proof fn law_small_images(d: DeskView, v: ReviewView, path: Seq<char>, paths: Seq<Seq<char>>, collage: bool)
    requires
        d.review == Some(v),
    ensures
        !v.thumbnails.contains_key(seq![path]) ==> d.thumbnail_asked(path).1 == Some(
            RequestView::Photo {
                request_id: d.next_request_id,
                target: ReviewPhotoTarget::Thumbnail,
                path,
                maximum_width: 96,
                maximum_height: 64,
            },
        ),
        v.thumbnails.contains_key(seq![path]) ==> d.thumbnail_asked(path).1 is None,
        !v.slide_thumbnails.contains_key(paths) ==> d.slide_thumbnail_asked(paths, collage).1 == Some(
            RequestView::SlidePreview {
                request_id: d.next_request_id,
                target: ReviewSlideTarget::Thumbnail,
                paths,
                collage,
                width: 128,
                height: 72,
            },
        ),
        v.slide_thumbnails.contains_key(paths) ==> d.slide_thumbnail_asked(paths, collage).1 is None,
        d.thumbnail_asked(path).0.thumbnail_asked(path).1 is None,
{
}

/// A preview that came is shown, one that did not is replaced by the reason.
pub proof fn law_answers_are_shown(slot: SlotView, e: Seq<char>)
    ensures
        answered(slot, Ok(())).shown && answered(slot, Ok(())).error is None && answered(slot, Ok(())).request
            is None,
        !answered(slot, Err(e)).shown && answered(slot, Err(e)).error == Some(e) && answered(
            slot,
            Err(e),
        ).request is None,
        answered(slot, Ok(())).paths == slot.paths,
{
}

/// A current result of the review shows its preview, and changes nothing else.
pub proof fn law_current_previews_are_shown(
    d: DeskView,
    v: ReviewView,
    request_id: u64,
    path: Seq<char>,
    result: Result<(), Seq<char>>,
    collage: bool,
)
    requires
        d.review == Some(v),
        v.preview.request == Some(request_id),
        v.preview.paths == seq![path],
    ensures
        ({
            let r = ResultView::Photo {
                request_id,
                target: ReviewPhotoTarget::Review,
                path,
                result,
            };
            let (after, more) = d.accepted(r, collage);
            &&& more is None
            &&& after.review matches Some(w) && w.preview.shown == (result is Ok) && w.preview.request is None
                && w.photos == v.photos && w.selected == v.selected && w.thumbnails == v.thumbnails
            &&& after.next_request_id == d.next_request_id
        }),
{
}

/// Slides that came replace the former ones, and the first of them is selected and asked for.
pub proof fn law_current_slides_are_shown(
    d: DeskView,
    v: ReviewView,
    request_id: u64,
    groups: Seq<Seq<Seq<char>>>,
    collage: bool,
)
    requires
        d.review == Some(v),
        v.slide_groups_request == Some(request_id),
        groups.len() > 0,
        groups[0].len() > 0,
    ensures
        ({
            let (after, more) = d.accepted(
                ResultView::SlideGroups { request_id, result: Ok(groups) },
                collage,
            );
            &&& after.review matches Some(w) && w.slide_groups == groups && w.slide_selected == Some(0usize)
                && !w.slides_dirty && w.slide_groups_request is None
            &&& more == Some(
                RequestView::SlidePreview {
                    request_id: d.next_request_id,
                    target: ReviewSlideTarget::Selected,
                    paths: groups[0],
                    collage,
                    width: 640,
                    height: 360,
                },
            )
        }),
{
    assert(groups[0] != Seq::<Seq<char>>::empty());
}

/// Slides that could not be made leave none, with the reason in place of the preview.
pub proof fn law_failed_slides_leave_none(
    d: DeskView,
    v: ReviewView,
    request_id: u64,
    e: Seq<char>,
    collage: bool,
)
    requires
        d.review == Some(v),
        v.slide_groups_request == Some(request_id),
    ensures
        ({
            let (after, more) = d.accepted(
                ResultView::SlideGroups { request_id, result: Err(e) },
                collage,
            );
            &&& more is None
            &&& after.review matches Some(w) && w.slide_groups.len() == 0 && w.slide_selected is None
                && w.slide_preview.error == Some(e)
        }),
{
}

/// A small image that came is shown, and one that did not has failed.
pub proof fn law_small_images_settle(
    d: DeskView,
    v: ReviewView,
    request_id: u64,
    path: Seq<char>,
    result: Result<(), Seq<char>>,
    collage: bool,
)
    requires
        d.review == Some(v),
        v.thumbnails.contains_key(seq![path]),
        v.thumbnails[seq![path]] == ThumbnailState::Requested(request_id),
    ensures
        ({
            let r = ResultView::Photo {
                request_id,
                target: ReviewPhotoTarget::Thumbnail,
                path,
                result,
            };
            let (after, more) = d.accepted(r, collage);
            &&& more is None
            &&& after.review matches Some(w) && w.thumbnails[seq![path]] == if result is Ok {
                ThumbnailState::Shown
            } else {
                ThumbnailState::Failed
            }
        }),
{
}

/// A slide of one photo is called by its number and its photo; one of several also tells how many.
pub proof fn law_slides_are_named(index: nat, path: Seq<char>, name: Seq<char>)
    requires
        file_name(path) == Some(name),
    ensures
        slide_text(index, seq![path]) == "Slide "@ + decimal(index + 1) + " · "@ + name,
{
    let group = seq![path];
    let f = crate::review::name_of();
    Seq::<Seq<char>>::lemma_filter_map_singleton(path, f);
    let names = group.filter_map(f);
    assert(names =~= seq![name]);
    reveal_with_fuel(crate::text::join_texts, 2);
    assert(names.drop_last() =~= Seq::<Seq<char>>::empty());
    assert(crate::text::join_texts(names, ", "@) =~= name);
}

} // verus!
