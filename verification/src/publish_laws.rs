//! How a finished file gets to its place, and how state is replaced, step by step.

use crate::model::ContentMode;
use crate::paths::{
    extension, file_name, file_stem, is_plain_name, joined, last_component, law_parent_undoes_join, parent, plain,
    trimmed,
};
use crate::publish::{
    backup_place, kind_of, planned_publication, previous_place, staging_place, ActionView, JobPlan,
    OutcomeView, Phase, PublicationKind, PublicationView,
};
use crate::store::{
    data_place, document_of, draft_copy, first_document, kept_copy, places_in, stored_history,
    StateFileView, SystemFolders, WritePhase, WriteView,
};
use crate::text::decimal;
use vstd::prelude::*;

verus! {

/// Where every operation works and the place is free, a conversion puts its source aside and then the finished
/// file in its place; only then is the unfinished file no longer needed.
pub proof fn law_conversions_reach_their_place(p: PublicationView)
    requires
        p.fresh(),
        p.kind == PublicationKind::Conversion,
        plain(p.output) != plain(p.input),
    ensures
        ({
            let a = p.next(OutcomeView::No);
            let b = a.0.next(OutcomeView::No);
            let c = b.0.next(OutcomeView::Yes);
            let d = c.0.next(OutcomeView::Yes);
            let e = d.0.next(OutcomeView::Yes);
            &&& p.action() == Some(ActionView::Check { path: p.output })
            &&& a.0.action() == Some(ActionView::Check { path: p.output })
            &&& b.0.action() is Some && b.0.action()->0 is CreateFolder
            &&& c.0.action() == Some(ActionView::Rename { from: p.input, to: p.backup })
            &&& d.0.action() == Some(ActionView::CopyNew { from: p.staging, to: p.output })
            &&& e.0.action() is None && e.0.phase == Phase::Published && e.0.error is None
            &&& a.1.len() == 0 && b.1.len() == 0 && c.1.len() == 0 && d.1.len() == 0
            &&& e.1 == seq![p.staging]
        }),
{
}

/// A conversion whose output takes the place of its source goes on at once, since the source is put aside.
pub proof fn law_conversions_may_take_the_place_of_their_source(p: PublicationView)
    requires
        p.fresh(),
        p.kind == PublicationKind::Conversion,
        plain(p.output) == plain(p.input),
    ensures
        p.next(OutcomeView::Yes).0.action() is Some && p.next(OutcomeView::Yes).0.action()->0 is CreateFolder,
        p.next(OutcomeView::Yes).1.len() == 0,
        p.next(OutcomeView::Yes).0.error is None,
{
}

/// An earlier output is kept in another place before it is removed, and is no longer needed once the new one is
/// in its place.
pub proof fn law_earlier_outputs_are_kept_until_replaced(p: PublicationView)
    requires
        p.fresh(),
        p.kind == PublicationKind::BesideReplacing,
    ensures
        ({
            let a = p.next(OutcomeView::Yes);
            let b = a.0.next(OutcomeView::No);
            let c = b.0.next(OutcomeView::Yes);
            let d = c.0.next(OutcomeView::Yes);
            let e = d.0.next(OutcomeView::Yes);
            &&& a.0.action() == Some(ActionView::Check { path: p.previous })
            &&& b.0.action() == Some(ActionView::CopyNew { from: p.output, to: p.previous })
            &&& c.0.action() == Some(ActionView::Remove { path: p.output })
            &&& d.0.action() == Some(ActionView::CopyNew { from: p.staging, to: p.output })
            &&& e.0.phase == Phase::Published && e.0.error is None
            &&& a.1.len() == 0 && b.1.len() == 0 && c.1.len() == 0 && d.1.len() == 0
            &&& e.1 == seq![p.staging, p.previous]
        }),
{
}

/// A file that must not replace another is published to a free place, and refused otherwise.
pub proof fn law_files_beside_never_replace(p: PublicationView)
    requires
        p.fresh(),
        p.kind == PublicationKind::Beside,
    ensures
        p.next(OutcomeView::No).0.action() == Some(
            ActionView::CopyNew { from: p.staging, to: p.output },
        ),
        p.next(OutcomeView::No).0.next(OutcomeView::Yes).0.phase == Phase::Published,
        p.next(OutcomeView::No).0.next(OutcomeView::Yes).1 == seq![p.staging],
        p.next(OutcomeView::Yes).0.phase == Phase::Refused,
        p.next(OutcomeView::Yes).0.error == Some(
            "publishing output: output already exists: "@ + p.output,
        ),
        p.next(OutcomeView::Yes).1 == seq![p.staging],
{
}

/// A conversion that cannot be put in its place brings its source back, then an earlier output, and is refused
/// with the reason.
pub proof fn law_failed_conversions_are_rolled_back(p: PublicationView, reason: Seq<char>)
    requires
        p.phase == Phase::Publish,
        p.kind == PublicationKind::Conversion,
    ensures
        ({
            let a = p.next(OutcomeView::Failed(reason));
            let b = a.0.next(OutcomeView::Yes);
            let c = b.0.next(OutcomeView::Yes);
            &&& a.0.action() == Some(ActionView::Rename { from: p.backup, to: p.input })
            &&& a.1.len() == 0
            &&& b.0.error == Some("publishing converted output: "@ + reason)
            &&& !p.replaced ==> b.0.phase == Phase::Refused && b.1 == seq![p.staging]
            &&& p.replaced ==> b.0.action() == Some(
                ActionView::CopyNew { from: p.previous, to: p.output },
            ) && c.0.phase == Phase::Refused && c.0.error == b.0.error && c.1 == seq![p.previous]
        }),
{
}

/// A refusal leaves the words of the system in the reason, whichever operation failed.
pub proof fn law_reasons_for_refusals(p: PublicationView, e: Seq<char>)
    ensures
        p.phase == Phase::Preserve ==> p.next(OutcomeView::Failed(e)).0.error == Some(
            "preserving previous output: "@ + e,
        ),
        p.phase == Phase::RemoveOld ==> p.next(OutcomeView::Failed(e)).0.error == Some(
            "removing previous output: "@ + e,
        ),
        p.phase == Phase::MakeFolder ==> p.next(OutcomeView::Failed(e)).0.error == Some(
            "creating original backup directory: "@ + e,
        ),
        p.phase == Phase::SetAside ==> p.next(OutcomeView::Failed(e)).0.error == Some(
            "moving source into original: "@ + e,
        ),
        p.phase == Phase::Publish && p.kind != PublicationKind::Conversion && !p.replaced ==> p.next(
            OutcomeView::Failed(e),
        ).0.error == Some("publishing output: "@ + e),
        p.phase == Phase::CheckPrevious ==> p.next(OutcomeView::Yes).0.error == Some(
            "replacement backup already exists: "@ + p.previous,
        ),
        p.phase == Phase::CheckLate ==> p.next(OutcomeView::Yes).0.error == Some(
            "publishing converted output: output already exists: "@ + p.output,
        ),
{
}

/// TV, animation, and camera videos replace their sources; trimming may replace an earlier cut; stabilized
/// videos and slideshows replace nothing.
pub proof fn law_workflows_and_what_they_replace(mode: ContentMode)
    ensures
        match mode {
            ContentMode::Tv => kind_of(mode) == PublicationKind::Conversion,
            ContentMode::Animation => kind_of(mode) == PublicationKind::Conversion,
            ContentMode::CameraVideos => kind_of(mode) == PublicationKind::Conversion,
            ContentMode::Stabilize => kind_of(mode) == PublicationKind::Beside,
            ContentMode::Trim => kind_of(mode) == PublicationKind::BesideReplacing,
            ContentMode::PhotoSlideshow => kind_of(mode) == PublicationKind::Beside,
        },
{
}

/// A source that is put aside keeps its name, in a folder called `original` beside it.
pub proof fn law_sources_go_to_the_folder_of_originals(input: Seq<char>)
    requires
        parent(input) is Some,
        file_name(input) is Some,
        is_plain_name(file_name(input)->0),
    ensures
        backup_place(input) matches Ok(backup) && last_component(backup) == file_name(input)->0 && (
        parent(backup) matches Some(folder) && last_component(folder) == "original"@ && parent(folder)
            == Some(trimmed(parent(input)->0))),
{
    let name = file_name(input)->0;
    let folder = parent(input)->0;
    reveal_strlit("original");
    reveal_strlit("/");
    reveal_strlit(".");
    reveal_strlit("..");
    let o = "original"@;
    assert(!o.contains('/'));
    assert(o.len() == 8);
    assert(is_plain_name(o));
    law_parent_undoes_join(folder, o);
    law_parent_undoes_join(joined(folder, o), name);
}

/// Unfinished and waiting files stand in the folder for temporary files, under names that tell the program, the
/// process, and the task.
pub proof fn law_temporary_files_and_their_names(
    temporary: Seq<char>,
    output: Seq<char>,
    process: u32,
    id: Seq<char>,
)
    requires
        file_stem(output) is Some,
        extension(output) is Some,
        file_name(output) is Some,
    ensures
        staging_place(temporary, output, process, id) == Ok::<Seq<char>, Seq<char>>(
            joined(
                temporary,
                file_stem(output)->0 + ".videoferry-stage-"@ + decimal(process as nat) + "-"@ + id + "."@
                    + extension(output)->0,
            ),
        ),
        previous_place(temporary, output, process, id) == Ok::<Seq<char>, Seq<char>>(
            joined(
                temporary,
                file_name(output)->0 + ".videoferry-previous-"@ + decimal(process as nat) + "-"@ + id,
            ),
        ),
{
}

/// A conversion is planned exactly if neither a file of the source's name among the originals nor an unfinished
/// file is in the way; only conversions that put their source aside ask for the former.
pub proof fn law_conversions_are_planned(job: JobPlan, backup_exists: bool, staging_exists: bool)
    requires
        parent(job.input@) is Some,
        file_name(job.input@) is Some,
        file_name(job.output@) is Some,
        extension(job.output@) is Some,
    ensures
        ({
            let plan = planned_publication(job, backup_exists, staging_exists);
            let replaces = job.mode == ContentMode::Tv || job.mode == ContentMode::Animation || job.mode
                == ContentMode::CameraVideos;
            &&& plan is Ok <==> !staging_exists && !(replaces && backup_exists)
            &&& plan matches Ok(p) ==> p.fresh() && p.input == job.input@ && p.output == job.output@
                && p.kind == kind_of(job.mode)
            &&& plan matches Ok(p) ==> replaces ==> p.backup == joined(
                joined(parent(job.input@)->0, "original"@),
                file_name(job.input@)->0,
            )
            &&& plan matches Ok(p) ==> Ok::<Seq<char>, Seq<char>>(p.staging) == staging_place(
                job.temporary@,
                job.output@,
                job.process,
                job.task_id@,
            )
            &&& plan matches Ok(p) ==> Ok::<Seq<char>, Seq<char>>(p.previous) == previous_place(
                job.temporary@,
                job.output@,
                job.process,
                job.task_id@,
            )
        }),
{
}

/// Where every operation works, a state file is written beside its place, the former one is moved aside, and the
/// new one takes the place; then the former one is no longer needed.
pub proof fn law_states_reach_their_place(w: WriteView)
    requires
        w.phase == WritePhase::CreateFolder,
        !w.had_destination,
        w.error is None,
    ensures
        ({
            let a = w.next(OutcomeView::Yes).0;
            let b = a.next(OutcomeView::Yes).0;
            let c = b.next(OutcomeView::No).0;
            let d = c.next(OutcomeView::Yes).0;
            let e = d.next(OutcomeView::Yes).0;
            let f = e.next(OutcomeView::Yes);
            let g = c.next(OutcomeView::No).0.next(OutcomeView::Yes);
            &&& f.0.phase == WritePhase::Written && f.0.error is None && f.1 == seq![w.backup]
            &&& g.0.phase == WritePhase::Written && g.0.error is None && g.1.len() == 0
            &&& w.action() is Some && w.action()->0 is CreateFolder
            &&& a.action() is Some && a.action()->0 is Write && a.action()->0->Write_path == w.temporary
            &&& d.action() is Some && d.action()->0 is Rename && d.action()->0->from == w.destination
                && d.action()->0->to == w.backup
            &&& e.action() is Some && e.action()->0 is Rename && e.action()->0->from == w.temporary
                && e.action()->0->to == w.destination
        }),
{
}

/// A state that could not take its place is given up for the former one, which is brought back.
pub proof fn law_failed_states_are_rolled_back(w: WriteView, reason: Seq<char>)
    requires
        w.phase == WritePhase::Publish,
        w.had_destination,
    ensures
        ({
            let a = w.next(OutcomeView::Failed(reason)).0;
            let b = a.next(OutcomeView::Yes);
            &&& a.action() is Some && a.action()->0 is Rename && a.action()->0->from == w.backup
                && a.action()->0->to == w.destination
            &&& a.error == Some("publishing "@ + w.destination + ": "@ + reason)
            &&& b.0.phase == WritePhase::Refused && b.0.error == a.error && b.1 == seq![w.temporary]
        }),
{
}

/// The kept copy of a state file has its name and `.bak`, the draft its name, `.tmp.`, and the process.
pub proof fn law_copies_of_state_files(path: Seq<char>, root: Seq<char>, file: Seq<char>, process: u32)
    ensures
        kept_copy(path) == path + ".bak"@,
        draft_copy(path, process) == path + ".tmp."@ + decimal(process as nat),
        places_in(root, file).len() == 2,
        places_in(root, file)[0] == joined(root, file),
        places_in(root, file)[1] == joined(root, file) + ".bak"@,
{
}

/// The document read is that of the first file that has one.
pub proof fn law_first_readable_document_counts(
    files: Seq<StateFileView>,
    error: Option<Seq<char>>,
    i: int,
)
    requires
        0 <= i < files.len(),
        document_of(files[i]) is Ok,
        forall|j: int| 0 <= j < i ==> document_of(#[trigger] files[j]) is Err,
    ensures
        first_document(files, error) == Ok::<Option<crate::json::JsonView>, Seq<char>>(
            Some(document_of(files[i])->Ok_0),
        ),
    decreases i,
{
    if i > 0 {
        let rest = files.drop_first();
        assert(rest[i - 1] == files[i]);
        assert(document_of(files[0]) is Err);
        assert forall|j: int| 0 <= j < i - 1 implies document_of(#[trigger] rest[j]) is Err by {
            assert(rest[j] == files[j + 1]);
        }
        let e = document_of(files[0])->Err_0;
        law_first_readable_document_counts(
            rest,
            Some(crate::store::reading_error(files[0].path, e)),
            i - 1,
        );
    }
}

/// Where no file has a document, the last one is named as the reason; without files there is nothing to read.
pub proof fn law_unreadable_documents_are_reported(files: Seq<StateFileView>, error: Option<Seq<char>>)
    requires
        forall|j: int| 0 <= j < files.len() ==> document_of(#[trigger] files[j]) is Err,
    ensures
        files.len() > 0 ==> first_document(files, error) == Err::<
            Option<crate::json::JsonView>,
            Seq<char>,
        >("reading "@ + files.last().path + ": "@ + document_of(files.last())->Err_0),
        files.len() == 0 && error is None ==> first_document(files, error) == Ok::<
            Option<crate::json::JsonView>,
            Seq<char>,
        >(None),
        files.len() == 0 && error is None ==> stored_history(files) == Ok::<
            Seq<Seq<Seq<char>>>,
            Seq<char>,
        >(Seq::empty()),
    decreases files.len(),
{
    if files.len() > 0 {
        assert(document_of(files[0]) is Err);
        let rest = files.drop_first();
        let e = document_of(files[0])->Err_0;
        assert forall|j: int| 0 <= j < rest.len() implies document_of(#[trigger] rest[j]) is Err by {
            assert(rest[j] == files[j + 1]);
        }
        law_unreadable_documents_are_reported(
            rest,
            Some(crate::store::reading_error(files[0].path, e)),
        );
        if rest.len() > 0 {
            assert(rest.last() == files.last());
        }
    }
}

/// The state of the program goes where the system keeps such data: by the first of three variables on Windows,
/// below the home folder elsewhere, and in a hidden folder where it was started if nothing is known.
pub proof fn law_state_has_its_folder(f: SystemFolders)
    ensures
        f.windows ==> (f.local_app_data matches Some(folder) ==> data_place(f) == joined(
            folder@,
            "VideoFerry"@,
        )),
        f.windows && f.local_app_data is None ==> (f.app_data matches Some(folder) ==> data_place(f)
            == joined(folder@, "VideoFerry"@)),
        f.windows && f.local_app_data is None && f.app_data is None ==> (f.user_profile matches Some(folder)
            ==> data_place(f) == joined(folder@, ".videoferry"@)),
        !f.windows ==> (f.home matches Some(folder) ==> data_place(f) == joined(
            joined(joined(folder@, ".local"@), "share"@),
            "VideoFerry"@,
        )),
        f.windows && f.local_app_data is None && f.app_data is None && f.user_profile is None
            ==> data_place(f) == joined(f.current@, ".videoferry"@),
        !f.windows && f.home is None ==> data_place(f) == joined(f.current@, ".videoferry"@),
{
}

} // verus!
