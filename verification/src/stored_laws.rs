//! What stored settings and stored tasks mean.

use crate::clock::{clock_text, whole_secs};
use crate::model::{
    encoder_user_name, mode_label, mode_labelled, ContentMode, Encoder, FpsPolicy, FrameRate, MetadataPolicy,
    SettingsView,
};
use crate::paths::file_name;
use crate::queue::{has_id, QueueStatus, TaskView};
use crate::stored::{
    existing_only, restored_settings, stored_audio, stored_form, stored_fps, stored_quality,
    stored_resolution, FactsView, StoredFps, StoredView,
};
use crate::stored_queue::{
    mode_entry_settings, mode_position, restored_table, restored_task, restored_tasks, stored_task,
    version_error, StoredTaskView,
};
use crate::stream_policy::lemma_filter_source;
use crate::text::{decimal, lemma_decimal_round_trip, parsed_unsigned};
use vstd::prelude::*;

verus! {

/// A stored width and height count where both are there and not zero; else the stored name does, `4K` as 3840 by
/// 2160 and any other as 1920 by 1080.
pub proof fn law_stored_sizes(v: StoredView, w: u32, h: u32)
    ensures
        w > 0 && h > 0 && v.slideshow_width == Some(w) && v.slideshow_height == Some(h)
            ==> stored_resolution(v) == (w, h),
        v.slideshow_width is None && v.slideshow_resolution == "4K"@ ==> stored_resolution(v) == (
        3840u32, 2160u32),
        v.slideshow_height is None && v.slideshow_resolution == "4K"@ ==> stored_resolution(v) == (
        3840u32, 2160u32),
        v.slideshow_width is None && v.slideshow_resolution == "1080p"@ ==> stored_resolution(v) == (
        1920u32, 1080u32),
        v.slideshow_width == Some(0u32) && v.slideshow_resolution == "4K"@ ==> stored_resolution(v) == (
        3840u32, 2160u32),
{
    reveal_strlit("4K");
    reveal_strlit("1080p");
    assert("4K"@.len() != "1080p"@.len());
}

/// Settings are stored with their size and its name.
pub proof fn law_sizes_are_stored(s: SettingsView)
    ensures
        s.slideshow_resolution == (3840u32, 2160u32) ==> stored_form(s).slideshow_resolution == "4K"@,
        s.slideshow_resolution != (3840u32, 2160u32) ==> stored_form(s).slideshow_resolution == "1080p"@,
        stored_form(s).slideshow_width == Some(s.slideshow_resolution.0),
        stored_form(s).slideshow_height == Some(s.slideshow_resolution.1),
{
}

/// A stored whole number is a quality, brought down to the encoder's worst level: 51 with x264 and x265, and 63
/// with the others.
pub proof fn law_stored_qualities(n: nat, number: Option<u32>, encoder: Encoder)
    requires
        n <= 1_000_000,
    ensures
        stored_quality(decimal(n), number, encoder) == Some(
            if encoder == Encoder::X264 || encoder == Encoder::X265 {
                if n > 51 {
                    51u8
                } else {
                    n as u8
                }
            } else {
                if n > 63 {
                    63u8
                } else {
                    n as u8
                }
            },
        ),
        stored_quality(Seq::empty(), number, encoder) is None,
{
    lemma_decimal_round_trip(n);
    assert(parsed_unsigned(decimal(n), 1_000_000) == Some(n));
}

/// A stored rate: a shared one where it says so, else a usable number, and else that of the source.
pub proof fn law_stored_rates(v: StoredView, rate: FrameRate)
    ensures
        v.share_lowest_fps ==> stored_fps(v) == FpsPolicy::SharedLowest,
        v.fps_raw == StoredFps::Automatic ==> stored_fps(v) == FpsPolicy::SharedLowest,
        !v.share_lowest_fps && v.fps_raw == StoredFps::Absent && v.target_fps is None ==> stored_fps(v)
            == FpsPolicy::Source,
        !v.share_lowest_fps && v.fps_raw != StoredFps::Automatic && v.target_fps == Some(rate)
            && rate.usable() ==> stored_fps(v) == FpsPolicy::Exact(rate),
        !v.share_lowest_fps && v.fps_raw == StoredFps::Number(rate) && v.target_fps is None && rate.usable()
            ==> stored_fps(v) == FpsPolicy::Exact(rate),
        !v.share_lowest_fps && v.fps_raw == StoredFps::Number(rate) && v.target_fps is None && !rate.usable()
            ==> stored_fps(v) == FpsPolicy::Source,
{
}

/// Settings are read exactly if the label of their workflow and the name of their encoder are known, and are then
/// settings of both.
pub proof fn law_stored_settings_name_their_workflow(v: StoredView, facts: FactsView, mode: ContentMode)
    ensures
        restored_settings(v, facts) is Some <==> mode_labelled(v.mode) is Some
            && crate::model::encoder_named(v.encoder) is Some,
        v.mode == mode_label(mode) ==> (restored_settings(v, facts) matches Some(s) ==> s.mode == mode),
{
    crate::model::law_mode_labels_round_trip(mode, mode);
}

/// Entries that are left empty are taken from the defaults, except those that may be none.
pub proof fn law_empty_entries_are_defaults(v: StoredView, facts: FactsView)
    requires
        restored_settings(v, facts) is Some,
    ensures
        ({
            let s = restored_settings(v, facts)->0;
            &&& v.stabilize_strength.len() == 0 ==> s.stabilize_strength
                == facts.defaults.stabilize_strength
            &&& v.stabilize_strength.len() > 0 ==> s.stabilize_strength == v.stabilize_strength
            &&& v.photo_interval is None ==> s.photo_interval == facts.defaults.photo_interval
            &&& v.photo_interval matches Some(d) ==> s.photo_interval == d
            &&& v.slideshow_fps == 0 ==> s.slideshow_fps == facts.defaults.slideshow_fps
            &&& v.slideshow_fps > 0 ==> s.slideshow_fps == v.slideshow_fps
            &&& v.metadata is None ==> s.metadata == facts.defaults.metadata
            &&& v.metadata == Some("preserve"@) ==> s.metadata == MetadataPolicy::Preserve
            &&& v.metadata == Some("remove"@) ==> s.metadata == MetadataPolicy::Remove
            &&& v.quality_preset.len() == 0 ==> s.speed_preset is None
            &&& v.quality_preset.len() > 0 ==> s.speed_preset == Some(v.quality_preset)
            &&& v.trim_start.len() == 0 ==> s.trim_start is None
            &&& v.trim_end.len() == 0 ==> s.trim_end is None
            &&& s.slideshow_collage == v.slideshow_collage_enabled
            &&& s.slideshow_image_paths == v.slideshow_image_paths
            &&& s.slideshow_review_image_paths == v.slideshow_review_image_paths
            &&& s.camera_lut_path == v.camera_lut_path
        }),
{
    reveal_strlit("preserve");
    reveal_strlit("remove");
    assert("preserve"@.len() != "remove"@.len());
}

/// A lookup table is read for camera videos with a software encoder only, and is then wanted unless the entry says
/// otherwise.
pub proof fn law_stored_lookup_tables(v: StoredView, facts: FactsView)
    requires
        restored_settings(v, facts) is Some,
    ensures
        ({
            let s = restored_settings(v, facts)->0;
            s.apply_lut <==> s.mode == ContentMode::CameraVideos && (s.encoder == Encoder::X264 || s.encoder
                == Encoder::X265 || s.encoder == Encoder::SvtAv1) && v.apply_lut != Some(false)
        }),
{
}

/// Audio files that still exist are read, in their order; the older single entry counts where none is left.
pub proof fn law_stored_audio_files(v: StoredView, existing: Seq<Seq<char>>, i: int)
    ensures
        0 <= i < v.slideshow_audio_paths.len() && existing.contains(v.slideshow_audio_paths[i])
            ==> stored_audio(v, existing).contains(v.slideshow_audio_paths[i]),
        0 <= i < stored_audio(v, existing).len() ==> existing.contains(stored_audio(v, existing)[i]),
        v.slideshow_audio_paths.len() == 0 ==> (v.slideshow_audio_path matches Some(p) ==> existing.contains(p)
            ==> stored_audio(v, existing) == seq![p]),
        v.slideshow_audio_path is None ==> stored_audio(v, existing) == existing_only(
            v.slideshow_audio_paths,
            existing,
        ),
{
    let test = |f: Seq<char>| existing.contains(f);
    let all = v.slideshow_audio_paths;
    let listed = existing_only(all, existing);
    if 0 <= i < all.len() && existing.contains(all[i]) {
        assert(test(all[i]));
        all.lemma_filter_contains(test, i);
    }
    if 0 <= i < stored_audio(v, existing).len() {
        if stored_audio(v, existing) == listed {
            lemma_filter_source(all, test, i);
        }
    }
    if all.len() == 0 {
        all.lemma_filter_len(test);
    }
}

/// A running or paused task is stored as running, a completed one as completed, and all others as waiting; only a
/// completed one is still so when it is read.
pub proof fn law_stored_states(t: TaskView, entry: (StoredTaskView, FactsView), index: int)
    ensures
        match t.status {
            QueueStatus::Running => stored_task(t).status == Some("running"@),
            QueueStatus::Paused => stored_task(t).status == Some("running"@),
            QueueStatus::Completed => stored_task(t).status == Some("completed"@),
            QueueStatus::Pending => stored_task(t).status == Some("pending"@),
            QueueStatus::Failed => stored_task(t).status == Some("pending"@),
            QueueStatus::Cancelled => stored_task(t).status == Some("pending"@),
        },
        restored_task(entry, index) matches Some(back) ==> (back.status == QueueStatus::Completed
            <==> entry.0.status == Some("completed"@)),
        restored_task(entry, index) matches Some(back) ==> back.status == QueueStatus::Completed
            || back.status == QueueStatus::Pending,
{
}

/// A stored task is read as it was written; without an identifier or a name it gets its place in the list and the
/// name of its first target.
pub proof fn law_stored_tasks(entry: (StoredTaskView, FactsView), index: int)
    ensures
        restored_task(entry, index) matches Some(back) ==> {
            let stored = entry.0;
            &&& back.targets == stored.target_paths && back.targets.len() > 0
            &&& back.source_root == stored.source_root
            &&& back.queued_time == stored.queued_time
            &&& back.complete_time == stored.complete_time
            &&& back.error == stored.error
            &&& back.skipped_paths == stored.skipped_paths
            &&& stored.task_data_id matches Some(id) ==> id.len() > 0 ==> back.id == id
            &&& stored.task_data_id is None ==> back.id == "task-"@ + decimal((index + 1) as nat)
            &&& stored.name matches Some(name) ==> name.len() > 0 ==> back.name == name
            &&& stored.name is None ==> (file_name(stored.target_paths[0]) matches Some(name) ==> back.name
                == name)
        },
        entry.0.target_paths.len() == 0 || entry.0.settings is None ==> restored_task(entry, index) is None,
{
}

/// Every task that can be read comes back, unless an earlier one has its identifier; no two that come back share
/// one.
pub proof fn law_every_readable_task_comes_back(entries: Seq<(StoredTaskView, FactsView)>, i: int)
    requires
        0 <= i < entries.len(),
        restored_task(entries[i], i) is Some,
    ensures
        has_id(restored_tasks(entries), restored_task(entries[i], i)->0.id),
    decreases entries.len(),
{
    let rest = entries.drop_last();
    let before = restored_tasks(rest);
    let all = restored_tasks(entries);
    let id = restored_task(entries[i], i)->0.id;
    if i < rest.len() {
        assert(rest[i] == entries[i]);
        law_every_readable_task_comes_back(rest, i);
        assert(all.take(before.len() as int) =~= before);
        lemma_id_stays(before, all, id);
    } else {
        let t = restored_task(entries[i], i)->0;
        if !has_id(before, id) {
            lemma_new_id(before, t);
        }
    }
}

proof fn lemma_id_stays(before: Seq<TaskView>, all: Seq<TaskView>, id: Seq<char>)
    requires
        has_id(before, id),
        before.len() <= all.len(),
        all.take(before.len() as int) == before,
    ensures
        has_id(all, id),
{
    let k = choose|k: int| crate::queue::first_with_id(before, id, k);
    assert(crate::queue::first_with_id(before, id, k));
    assert forall|j: int| 0 <= j < before.len() implies #[trigger] all[j] == before[j] by {
        assert(all.take(before.len() as int)[j] == all[j]);
    }
    assert(crate::queue::first_with_id(all, id, k));
}

proof fn lemma_new_id(before: Seq<TaskView>, t: TaskView)
    requires
        !has_id(before, t.id),
    ensures
        has_id(before.push(t), t.id),
{
    let all = before.push(t);
    assert forall|j: int| 0 <= j < before.len() implies (#[trigger] all[j]).id != t.id by {
        if before[j].id == t.id {
            lemma_some_first(before, t.id, j);
        }
    }
    assert(crate::queue::first_with_id(all, t.id, before.len() as int));
}

proof fn lemma_some_first(tasks: Seq<TaskView>, id: Seq<char>, j: int)
    requires
        0 <= j < tasks.len(),
        tasks[j].id == id,
    ensures
        has_id(tasks, id),
    decreases j,
{
    if exists|k: int| 0 <= k < j && (#[trigger] tasks[k]).id == id {
        let k = choose|k: int| 0 <= k < j && (#[trigger] tasks[k]).id == id;
        lemma_some_first(tasks, id, k);
    } else {
        assert(crate::queue::first_with_id(tasks, id, j));
    }
}

/// The settings of a workflow are those of the last usable entry under its label; an entry whose settings are for
/// another workflow changes nothing.
pub proof fn law_last_usable_entry_counts(
    table: Seq<SettingsView>,
    entries: Seq<(Seq<char>, StoredView, FactsView)>,
    entry: (Seq<char>, StoredView, FactsView),
)
    requires
        restored_table(table, entries).len() == 6,
    ensures
        ({
            let before = restored_table(table, entries);
            let after = restored_table(table, entries.push(entry));
            &&& mode_entry_settings(entry) matches Some(s) ==> after[mode_position(s.mode)] == s && forall|
                m: ContentMode,
            |
                m != s.mode ==> after[#[trigger] mode_position(m)] == before[mode_position(m)]
            &&& mode_entry_settings(entry) is None ==> after == before
            &&& mode_entry_settings(entry) matches Some(s) ==> mode_labelled(entry.0) == Some(s.mode)
        }),
{
    assert(entries.push(entry).drop_last() =~= entries);
    assert(entries.push(entry).last() == entry);
}

/// A state of another version is refused with both versions named.
pub proof fn law_other_versions_are_refused(version: u32)
    ensures
        version_error(version) == "unsupported queue state version "@ + decimal(version as nat)
            + "; expected 2"@,
        crate::stored_queue::QUEUE_STATE_VERSION == 2,
{
}

/// Settings are stored under the names of the interface, with their times as clocks.
pub proof fn law_settings_are_stored_by_name(s: SettingsView)
    ensures
        stored_form(s).mode == mode_label(s.mode),
        stored_form(s).encoder == encoder_user_name(s.encoder),
        s.trim_start matches Some(d) ==> stored_form(s).trim_start == clock_text(whole_secs(d)),
        s.trim_end matches Some(d) ==> stored_form(s).trim_end == clock_text(whole_secs(d)),
        s.metadata == MetadataPolicy::Preserve ==> stored_form(s).metadata == Some("preserve"@),
        s.metadata == MetadataPolicy::Remove ==> stored_form(s).metadata == Some("remove"@),
        s.quality matches Some(q) ==> q <= 51 ==> stored_form(s).quality_crf == decimal(q as nat),
        s.fps == FpsPolicy::SharedLowest <==> stored_form(s).share_lowest_fps,
{
}

} // verus!
