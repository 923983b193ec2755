//! What a finished conversion looks like in the history, and in the lists that read it.

use crate::clock::{resolution_text, short_clock_text, size_text, whole_secs};
use crate::disk::DiskView;
use crate::history::{appended, history_value, law_append_puts_newest_first, normalized_row, row_key};
use crate::jobs::{history_columns, CompletedJob};
use crate::model::{encoder_user_name, mode_label, ContentMode};
use crate::output_naming::text_or;
use crate::paths::file_name;
use crate::queue::TaskView;
use crate::stream_policy::lemma_filter_source;
use crate::task_files::{converted_file, row_of_task};
use crate::task_rows::{history_row, row_passes, shown_history};
use crate::text::{contains_text, decimal, opt_text, trimmed, unicode_lower};
use vstd::prelude::*;

verus! {

/// A task's list shows a finished conversion with the sizes and rates of its source as the original ones,
/// and those of its result as the new ones.
pub proof fn law_finished_files_show_source_and_result(t: TaskView, job: CompletedJob)
    ensures
        converted_file(history_columns(t, job)).path == job.output@,
        file_name(job.output@) matches Some(name) ==> converted_file(history_columns(t, job)).title == name,
        converted_file(history_columns(t, job)).status == "Completed"@,
        converted_file(history_columns(t, job)).started_time == job.start_time@,
        converted_file(history_columns(t, job)).completed_time == job.end_time@,
        job.process_minutes@ != "-"@ ==> converted_file(history_columns(t, job)).conversion_time
            == job.process_minutes@ + " min"@,
        job.process_minutes@ == "-"@ ==> converted_file(history_columns(t, job)).conversion_time == "-"@,
        converted_file(history_columns(t, job)).original_size == size_text(job.original.size),
        converted_file(history_columns(t, job)).new_size == size_text(job.converted.size),
        converted_file(history_columns(t, job)).original_fps == job.original.fps_text@,
        converted_file(history_columns(t, job)).new_fps == job.converted.fps_text@,
        converted_file(history_columns(t, job)).error_detail.len() == 0,
{
}

/// A task's list shows the codec of the source, an arrow, and the codec of the result where the two are
/// known and differ; it shows the one that is known, and the encoder where none is.
pub proof fn law_finished_files_show_the_codecs(
    t: TaskView,
    job: CompletedJob,
    source: Seq<char>,
    result: Seq<char>,
)
    requires
        history_value(source) is Some,
        history_value(result) is Some,
    ensures
        opt_text(job.original.codec) == Some(source) && opt_text(job.converted.codec) == Some(result)
            && source != result ==> converted_file(history_columns(t, job)).codec == source + " → "@
            + result,
        opt_text(job.original.codec) == Some(source) && opt_text(job.converted.codec) == Some(source)
            ==> converted_file(history_columns(t, job)).codec == source,
        job.original.codec is None && opt_text(job.converted.codec) == Some(result)
            ==> converted_file(history_columns(t, job)).codec == result,
        opt_text(job.original.codec) == Some(source) && job.converted.codec is None
            ==> converted_file(history_columns(t, job)).codec == source,
        job.original.codec is None && job.converted.codec is None && t.settings.mode
            != ContentMode::Trim ==> converted_file(history_columns(t, job)).codec == encoder_user_name(
            t.settings.encoder,
        ),
        job.original.codec is None && job.converted.codec is None && t.settings.mode
            == ContentMode::Trim ==> converted_file(history_columns(t, job)).codec == "Stream copy"@,
{
}

/// The history list shows the size of the source to the left of its arrow, and that of the result to the
/// right.
pub proof fn law_history_list_shows_source_and_result(t: TaskView, job: CompletedJob)
    ensures
        history_row(history_columns(t, job)).path == job.output@,
        file_name(job.output@) matches Some(name) ==> history_row(history_columns(t, job)).title == name,
        history_row(history_columns(t, job)).subtitle == mode_label(t.settings.mode) + "  ·  "@
            + resolution_text(job.original.width, job.original.height),
        history_row(history_columns(t, job)).detail == job.process_minutes@ + " min  ·  "@ + size_text(
            job.original.size,
        ) + " → "@ + size_text(job.converted.size),
        t.settings.mode != ContentMode::Trim ==> history_row(history_columns(t, job)).configuration
            == "Original FPS "@ + job.original.fps_text@ + "  ·  Target FPS "@
            + job.converted.fps_text@ + "  ·  Encoder "@ + encoder_user_name(t.settings.encoder)
            + "  ·  Quality CRF "@ + (match t.settings.quality {
            Some(q) => decimal(q as nat),
            None => "-"@,
        }) + "  ·  Preset "@ + text_or(t.settings.speed_preset, "-"@),
        t.settings.mode == ContentMode::Trim ==> history_row(history_columns(t, job)).configuration
            == "Original FPS "@ + job.original.fps_text@ + "  ·  Target FPS "@
            + job.converted.fps_text@ + "  ·  Encoder "@ + "Stream copy"@ + "  ·  Quality CRF "@
            + "-"@ + "  ·  Preset "@ + "-"@,
{
}

/// A finished conversion is listed under the task that ran it, and under no other.
pub proof fn law_finished_files_belong_to_their_task(
    d: DiskView,
    t: TaskView,
    other: TaskView,
    job: CompletedJob,
)
    requires
        history_value(t.id) is Some,
    ensures
        row_of_task(d, history_columns(t, job), t),
        row_of_task(d, history_columns(t, job), other) <==> other.id == t.id,
{
}

/// The history knows two conversions apart by their results, lookup tables, and start times, and by nothing
/// else.
pub proof fn law_conversions_are_known_by_result_and_start(
    t: TaskView,
    job: CompletedJob,
    other: CompletedJob,
)
    requires
        job.output@ == other.output@,
        job.start_time@ == other.start_time@,
        opt_text(job.lut_name) == opt_text(other.lut_name),
    ensures
        row_key(history_columns(t, job)) == row_key(history_columns(t, other)),
        row_key(history_columns(t, job)) == job.output@ + "|"@ + text_or(opt_text(job.lut_name), "-"@) + "|"@
            + job.start_time@,
{
}

/// The length shown is that of the source, or that of the result where the source's is not known.
pub proof fn law_finished_files_show_their_length(t: TaskView, job: CompletedJob)
    ensures
        job.original.duration matches Some(d) ==> history_columns(t, job)[18]
            == short_clock_text(whole_secs(d)),
        job.original.duration is None ==> (job.converted.duration matches Some(d) ==> history_columns(
            t,
            job,
        )[18] == short_clock_text(whole_secs(d))),
        job.original.duration is None && job.converted.duration is None ==> history_columns(t, job)[18]
            == "-"@,
{
}

/// Every row that the history list shows under a filter has its text in some column, and every row that
/// does is shown; without a filter all rows are shown.
pub proof fn law_filter_keeps_matching_rows(rows: Seq<Seq<Seq<char>>>, filter: Seq<char>, i: int, c: int)
    requires
        0 <= i < rows.len(),
        0 <= c < rows[i].len(),
    ensures
        contains_text(unicode_lower(rows[i][c]), unicode_lower(trimmed(filter)))
            ==> shown_history(rows, filter).contains(history_row(rows[i])),
        unicode_lower(trimmed(filter)).len() == 0 ==> shown_history(rows, filter).contains(
            history_row(rows[i]),
        ),
        forall|k: int|
            0 <= k < shown_history(rows, filter).len() ==> exists|j: int|
                0 <= j < rows.len() && #[trigger] shown_history(rows, filter)[k] == history_row(
                    #[trigger] rows[j],
                ),
{
    let wanted = unicode_lower(trimmed(filter));
    let test = row_passes(wanted);
    let kept = rows.filter(test);
    let shown = shown_history(rows, filter);
    assert(shown.len() == kept.len());
    assert(forall|k: int| 0 <= k < kept.len() ==> #[trigger] shown[k] == history_row(kept[k]));
    if contains_text(unicode_lower(rows[i][c]), wanted) || wanted.len() == 0 {
        assert(test(rows[i]));
        rows.lemma_filter_contains(test, i);
        let k = choose|k: int| 0 <= k < kept.len() && kept[k] == rows[i];
        assert(shown[k] == history_row(rows[i]));
    }
    assert forall|k: int| 0 <= k < shown.len() implies exists|j: int|
        0 <= j < rows.len() && #[trigger] shown[k] == history_row(#[trigger] rows[j]) by {
        lemma_filter_source(rows, test, k);
        let j = choose|j: int| 0 <= j < rows.len() && #[trigger] rows[j] == kept[k] && test(rows[j]);
        assert(shown[k] == history_row(rows[j]));
    }
}

/// The row just written comes first in the history, whatever the history was.
pub proof fn law_newest_conversion_comes_first(
    t: TaskView,
    job: CompletedJob,
    rows: Seq<Seq<Seq<char>>>,
)
    ensures
        appended(history_columns(t, job), rows).len() > 0,
        appended(history_columns(t, job), rows)[0] == history_columns(t, job),
{
    law_append_puts_newest_first(history_columns(t, job), rows);
}

/// Rows written before there were all columns keep what they tell: their last two columns are the rates where
/// they have eight to eleven columns, and what they lack is a dash.
pub proof fn law_older_rows_keep_their_columns(row: Seq<Seq<char>>)
    ensures
        row.len() == 14 || row.len() == 11 ==> (normalized_row(row) matches Some(full) && forall|i: int|
            0 <= i < 19 ==> #[trigger] full[i] == if i < row.len() {
                row[i]
            } else {
                "-"@
            }),
        row.len() == 10 ==> (normalized_row(row) matches Some(full) && forall|i: int|
            0 <= i < 19 ==> #[trigger] full[i] == if i == 2 || i > 10 {
                "-"@
            } else if i < 2 {
                row[i]
            } else {
                row[i - 1]
            }),
        row.len() == 9 ==> (normalized_row(row) matches Some(full) && forall|i: int|
            0 <= i < 19 ==> #[trigger] full[i] == if i == 2 || i == 8 || i > 10 {
                "-"@
            } else if i < 2 {
                row[i]
            } else if i < 8 {
                row[i - 1]
            } else {
                row[i - 2]
            }),
        row.len() == 8 ==> (normalized_row(row) matches Some(full) && forall|i: int|
            0 <= i < 19 ==> #[trigger] full[i] == if i == 1 || i == 2 || i == 8 || i > 10 {
                "-"@
            } else if i == 0 {
                row[0]
            } else if i < 8 {
                row[i - 2]
            } else {
                row[i - 3]
            }),
        row.len() < 8 || row.len() == 12 || row.len() == 13 || 14 < row.len() < 19 || row.len() > 19
            ==> normalized_row(row) is None,
{
}

/// A row that is written is read back as it is: it has all columns.
pub proof fn law_written_rows_are_full(t: TaskView, job: CompletedJob)
    ensures
        history_columns(t, job).len() == 19,
        normalized_row(history_columns(t, job)) == Some(history_columns(t, job)),
{
}

} // verus!
