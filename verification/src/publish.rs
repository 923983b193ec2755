//! Putting finished files in place without losing any.
//!
//! A publication names one file operation at a time. The front end performs it and reports the
//! outcome, which decides the next operation. Files that are no longer needed are handed out for
//! removal; it does not matter whether that works.

use crate::engine::EngineError;
use crate::media_files::{previous_file_name, previous_name, staging_file_name, staging_name};
use crate::model::ContentMode;
use crate::output_naming::{lemma_name_parts, text_or};
use crate::paths::{
    extension, file_name, file_stem, is_plain_name, joined, last_component, law_parent_undoes_join,
    lemma_after_last_is_clean, parent, path_extension, path_file_name, path_file_stem, path_join,
    path_parent, plain, same_path, trimmed,
};
use crate::text::{concat2, concat3, decimal, is_digit, lemma_decimal_round_trip, opt_text, texts};
use vstd::prelude::*;

verus! {

/// How a finished file goes to its place.
#[derive(Debug, Clone, Copy, PartialEq, Eq, Structural)]
pub enum PublicationKind {
    /// The source is put aside and the output takes its place, or that of an earlier output.
    Conversion,
    /// The output stands beside the source, and never replaces a file.
    Beside,
    /// The output stands beside the source, and may replace an earlier output.
    BesideReplacing,
}

/// Where a publication has come to.
#[derive(Debug, Clone, Copy, PartialEq, Eq, Structural)]
pub enum Phase {
    /// Is there already a file in the output's place?
    CheckOutput,
    /// Is there already a file where the earlier output would wait?
    CheckPrevious,
    /// Copy the earlier output to where it waits.
    Preserve,
    /// Remove the earlier output.
    RemoveOld,
    /// Has a file appeared in the output's place?
    CheckLate,
    /// Make the folder of originals.
    MakeFolder,
    /// Move the source among the originals.
    SetAside,
    /// Copy the finished file to its place.
    Publish,
    /// Move the source back.
    BringBack,
    /// Copy the earlier output back.
    Restore,
    Published,
    Refused,
}

/// One file operation.
#[derive(Debug, PartialEq, Eq)]
pub enum FileAction {
    /// Report whether a file exists.
    Check { path: String },
    /// Copy to a file that must not exist yet; nothing is left where that fails.
    CopyNew { from: String, to: String },
    Remove { path: String },
    CreateFolder { path: String },
    Rename { from: String, to: String },
}

/// The contents of a `FileAction`.
pub enum ActionView {
    Check { path: Seq<char> },
    CopyNew { from: Seq<char>, to: Seq<char> },
    Remove { path: Seq<char> },
    CreateFolder { path: Seq<char> },
    Rename { from: Seq<char>, to: Seq<char> },
}

impl View for FileAction {
    type V = ActionView;

    open spec fn view(&self) -> ActionView {
        match *self {
            FileAction::Check { path } => ActionView::Check { path: path@ },
            FileAction::CopyNew { from, to } => ActionView::CopyNew { from: from@, to: to@ },
            FileAction::Remove { path } => ActionView::Remove { path: path@ },
            FileAction::CreateFolder { path } => ActionView::CreateFolder { path: path@ },
            FileAction::Rename { from, to } => ActionView::Rename { from: from@, to: to@ },
        }
    }
}

/// The outcome of a file operation.
#[derive(Debug, PartialEq, Eq)]
pub enum ActionOutcome {
    /// It worked; for a check, the file exists.
    Yes,
    /// For a check, the file does not exist.
    No,
    /// It failed, with the words of the system.
    Failed(String),
}

/// The contents of an `ActionOutcome`.
pub enum OutcomeView {
    Yes,
    No,
    Failed(Seq<char>),
}

impl View for ActionOutcome {
    type V = OutcomeView;

    open spec fn view(&self) -> OutcomeView {
        match *self {
            ActionOutcome::Yes => OutcomeView::Yes,
            ActionOutcome::No => OutcomeView::No,
            ActionOutcome::Failed(e) => OutcomeView::Failed(e@),
        }
    }
}

/// A finished file on its way to its place.
#[derive(Debug, PartialEq, Eq)]
pub struct Publication {
    pub kind: PublicationKind,
    pub input: String,
    pub staging: String,
    pub output: String,
    /// Where the source goes.
    pub backup: String,
    /// Where an earlier output waits.
    pub previous: String,
    pub phase: Phase,
    /// Whether an earlier output waits to be brought back.
    pub replaced: bool,
    /// Why the publication failed.
    pub error: Option<String>,
}

/// The contents of a `Publication`.
pub struct PublicationView {
    pub kind: PublicationKind,
    pub input: Seq<char>,
    pub staging: Seq<char>,
    pub output: Seq<char>,
    pub backup: Seq<char>,
    pub previous: Seq<char>,
    pub phase: Phase,
    pub replaced: bool,
    pub error: Option<Seq<char>>,
}

impl View for Publication {
    type V = PublicationView;

    open spec fn view(&self) -> PublicationView {
        PublicationView {
            kind: self.kind,
            input: self.input@,
            staging: self.staging@,
            output: self.output@,
            backup: self.backup@,
            previous: self.previous@,
            phase: self.phase,
            replaced: self.replaced,
            error: opt_text(self.error),
        }
    }
}

impl PublicationView {
    pub open spec fn at(self, phase: Phase) -> PublicationView {
        PublicationView { phase, ..self }
    }

    pub open spec fn refused(self, error: Seq<char>) -> PublicationView {
        PublicationView { phase: Phase::Refused, error: Some(error), ..self }
    }

    /// The publication failed; an earlier output is first brought back.
    pub open spec fn failed(self, error: Seq<char>) -> PublicationView {
        PublicationView {
            phase: if self.replaced {
                Phase::Restore
            } else {
                Phase::Refused
            },
            error: Some(error),
            ..self
        }
    }

    /// The folder of originals.
    pub open spec fn originals(self) -> Seq<char> {
        match parent(self.backup) {
            Some(folder) => folder,
            None => Seq::empty(),
        }
    }

    /// The operation of a phase.
    pub open spec fn action(self) -> Option<ActionView> {
        match self.phase {
            Phase::CheckOutput | Phase::CheckLate => Some(ActionView::Check { path: self.output }),
            Phase::CheckPrevious => Some(ActionView::Check { path: self.previous }),
            Phase::Preserve => Some(
                ActionView::CopyNew { from: self.output, to: self.previous },
            ),
            Phase::RemoveOld => Some(ActionView::Remove { path: self.output }),
            Phase::MakeFolder => Some(ActionView::CreateFolder { path: self.originals() }),
            Phase::SetAside => Some(ActionView::Rename { from: self.input, to: self.backup }),
            Phase::Publish => Some(ActionView::CopyNew { from: self.staging, to: self.output }),
            Phase::BringBack => Some(ActionView::Rename { from: self.backup, to: self.input }),
            Phase::Restore => Some(ActionView::CopyNew { from: self.previous, to: self.output }),
            Phase::Published | Phase::Refused => None,
        }
    }

    /// The phase after the place is known to be free, or the source's own.
    pub open spec fn cleared(self) -> PublicationView {
        self.at(
            if self.kind == PublicationKind::Conversion {
                if plain(self.output) == plain(self.input) {
                    Phase::MakeFolder
                } else {
                    Phase::CheckLate
                }
            } else {
                Phase::Publish
            },
        )
    }

    /// What an outcome leads to, and the files that are then no longer needed.
    pub open spec fn next(self, outcome: OutcomeView) -> (PublicationView, Seq<Seq<char>>) {
        let staging = seq![self.staging];
        match (self.phase, outcome) {
            (Phase::CheckOutput, OutcomeView::Yes) => if self.kind == PublicationKind::Beside {
                (
                    self.refused("publishing output: output already exists: "@ + self.output),
                    staging,
                )
            } else if self.kind == PublicationKind::Conversion && plain(self.output) == plain(
                self.input,
            ) {
                (self.cleared(), Seq::empty())
            } else {
                (self.at(Phase::CheckPrevious), Seq::empty())
            },
            (Phase::CheckOutput, _) => (self.cleared(), Seq::empty()),
            (Phase::CheckPrevious, OutcomeView::Yes) => (
                self.refused("replacement backup already exists: "@ + self.previous),
                staging,
            ),
            (Phase::CheckPrevious, _) => (self.at(Phase::Preserve), Seq::empty()),
            (Phase::Preserve, OutcomeView::Failed(e)) => (
                self.refused("preserving previous output: "@ + e),
                staging,
            ),
            (Phase::Preserve, _) => (self.at(Phase::RemoveOld), Seq::empty()),
            (Phase::RemoveOld, OutcomeView::Failed(e)) => (
                self.refused("removing previous output: "@ + e),
                seq![self.previous, self.staging],
            ),
            (Phase::RemoveOld, _) => (
                PublicationView {
                    phase: if self.kind == PublicationKind::Conversion {
                        Phase::CheckLate
                    } else {
                        Phase::Publish
                    },
                    replaced: true,
                    ..self
                },
                Seq::empty(),
            ),
            (Phase::CheckLate, OutcomeView::Yes) => (
                self.failed(
                    "publishing converted output: output already exists: "@ + self.output,
                ),
                staging,
            ),
            (Phase::CheckLate, _) => (self.at(Phase::MakeFolder), Seq::empty()),
            (Phase::MakeFolder, OutcomeView::Failed(e)) => (
                self.failed("creating original backup directory: "@ + e),
                staging,
            ),
            (Phase::MakeFolder, _) => (self.at(Phase::SetAside), Seq::empty()),
            (Phase::SetAside, OutcomeView::Failed(e)) => (
                self.failed("moving source into original: "@ + e),
                staging,
            ),
            (Phase::SetAside, _) => (self.at(Phase::Publish), Seq::empty()),
            (Phase::Publish, OutcomeView::Failed(e)) => if self.kind
                == PublicationKind::Conversion {
                (PublicationView { phase: Phase::BringBack, error: Some(e), ..self }, Seq::empty())
            } else if self.replaced {
                (PublicationView { phase: Phase::Restore, error: Some(e), ..self }, Seq::empty())
            } else {
                (self.refused("publishing output: "@ + e), staging)
            },
            (Phase::Publish, _) => (
                self.at(Phase::Published),
                if self.replaced {
                    seq![self.staging, self.previous]
                } else {
                    staging
                },
            ),
            (Phase::BringBack, OutcomeView::Failed(e)) => (
                self.failed(
                    "publishing output failed ("@ + self.error->0
                        + "); source rollback also failed ("@ + e + "). Recover source from "@
                        + self.backup + " and converted file from "@ + self.staging,
                ),
                Seq::empty(),
            ),
            (Phase::BringBack, _) => (
                self.failed("publishing converted output: "@ + self.error->0),
                staging,
            ),
            (Phase::Restore, OutcomeView::Failed(e)) => if self.kind
                == PublicationKind::Conversion {
                (
                    self.refused(
                        "conversion failed: "@ + self.error->0
                            + "; previous-output rollback also failed ("@ + e
                            + "). Recover the previous output from "@ + self.previous,
                    ),
                    Seq::empty(),
                )
            } else {
                (
                    self.refused(
                        "publishing replacement failed ("@ + self.error->0
                            + "); previous-output rollback also failed ("@ + e
                            + "). Recover the previous output from "@ + self.previous
                            + " and the replacement from "@ + self.staging,
                    ),
                    Seq::empty(),
                )
            },
            (Phase::Restore, _) => if self.kind == PublicationKind::Conversion {
                (self.at(Phase::Refused), seq![self.previous])
            } else {
                (
                    self.refused("publishing replacement output: "@ + self.error->0),
                    seq![self.previous, self.staging],
                )
            },
            (Phase::Published, _) | (Phase::Refused, _) => (self, Seq::empty()),
        }
    }

    /// An error is known wherever it is spoken of, and only a replaced output is brought back.
    pub open spec fn consistent(self) -> bool {
        &&& self.phase == Phase::BringBack || self.phase == Phase::Restore || self.phase
            == Phase::Refused ==> self.error is Some
        &&& self.phase == Phase::Restore ==> self.replaced
        &&& self.phase == Phase::BringBack || self.phase == Phase::SetAside || self.phase
            == Phase::MakeFolder || self.phase == Phase::CheckLate ==> self.kind
            == PublicationKind::Conversion
        &&& self.phase == Phase::CheckOutput || self.phase == Phase::CheckPrevious || self.phase
            == Phase::Preserve || self.phase == Phase::RemoveOld ==> !self.replaced
        &&& self.kind == PublicationKind::Beside ==> !self.replaced && self.phase
            != Phase::CheckPrevious && self.phase != Phase::Preserve && self.phase
            != Phase::RemoveOld
    }

    /// The start of a publication.
    pub open spec fn fresh(self) -> bool {
        self.phase == Phase::CheckOutput && !self.replaced && self.error is None
    }
}

fn note(a: &str, b: &str) -> (r: Option<String>)
    ensures
        opt_text(r) == Some(a@ + b@),
{
    Some(concat2(a, b))
}

fn nothing() -> (r: Vec<String>)
    ensures
        texts(r@) == Seq::<Seq<char>>::empty(),
{
    let r: Vec<String> = Vec::new();
    assert(texts(r@) =~= Seq::<Seq<char>>::empty());
    r
}

fn one(a: &String) -> (r: Vec<String>)
    ensures
        texts(r@) == seq![a@],
{
    let mut r: Vec<String> = Vec::new();
    r.push(a.clone());
    assert(texts(r@) =~= seq![a@]);
    r
}

fn two(a: &String, b: &String) -> (r: Vec<String>)
    ensures
        texts(r@) == seq![a@, b@],
{
    let mut r: Vec<String> = Vec::new();
    r.push(a.clone());
    r.push(b.clone());
    assert(texts(r@) =~= seq![a@, b@]);
    r
}

impl Publication {
    pub fn new(
        kind: PublicationKind,
        input: String,
        staging: String,
        output: String,
        backup: String,
        previous: String,
    ) -> (r: Publication)
        ensures
            r@ == (PublicationView {
                kind,
                input: input@,
                staging: staging@,
                output: output@,
                backup: backup@,
                previous: previous@,
                phase: Phase::CheckOutput,
                replaced: false,
                error: None,
            }),
            r@.fresh(),
            r@.consistent(),
    {
        Publication {
            kind,
            input,
            staging,
            output,
            backup,
            previous,
            phase: Phase::CheckOutput,
            replaced: false,
            error: None,
        }
    }

    /// The next file operation; none when the publication is over.
    pub fn action(&self) -> (r: Option<FileAction>)
        ensures
            match r {
                Some(a) => self@.action() == Some(a@),
                None => self@.action() is None,
            },
    {
        match self.phase {
            Phase::CheckOutput | Phase::CheckLate => Some(
                FileAction::Check { path: self.output.clone() },
            ),
            Phase::CheckPrevious => Some(FileAction::Check { path: self.previous.clone() }),
            Phase::Preserve => Some(
                FileAction::CopyNew { from: self.output.clone(), to: self.previous.clone() },
            ),
            Phase::RemoveOld => Some(FileAction::Remove { path: self.output.clone() }),
            Phase::MakeFolder => {
                let folder = match path_parent(self.backup.as_str()) {
                    Some(folder) => folder,
                    None => {
                        let empty = String::new();
                        assert(empty@ =~= Seq::<char>::empty());
                        empty
                    },
                };
                Some(FileAction::CreateFolder { path: folder })
            },
            Phase::SetAside => Some(
                FileAction::Rename { from: self.input.clone(), to: self.backup.clone() },
            ),
            Phase::Publish => Some(
                FileAction::CopyNew { from: self.staging.clone(), to: self.output.clone() },
            ),
            Phase::BringBack => Some(
                FileAction::Rename { from: self.backup.clone(), to: self.input.clone() },
            ),
            Phase::Restore => Some(
                FileAction::CopyNew { from: self.previous.clone(), to: self.output.clone() },
            ),
            Phase::Published | Phase::Refused => None,
        }
    }

    fn fail(&mut self, error: Option<String>)
        requires
            error is Some,
        ensures
            final(self)@ == old(self)@.failed(opt_text(error)->0),
    {
        self.error = error;
        self.phase = if self.replaced {
            Phase::Restore
        } else {
            Phase::Refused
        };
    }

    fn refuse(&mut self, error: Option<String>)
        requires
            error is Some,
        ensures
            final(self)@ == old(self)@.refused(opt_text(error)->0),
    {
        self.error = error;
        self.phase = Phase::Refused;
    }

    fn clear_way(&mut self)
        ensures
            final(self)@ == old(self)@.cleared(),
    {
        self.phase = if self.kind == PublicationKind::Conversion {
            if same_path(self.output.as_str(), self.input.as_str()) {
                Phase::MakeFolder
            } else {
                Phase::CheckLate
            }
        } else {
            Phase::Publish
        };
    }

    fn error_text(&self) -> (r: String)
        requires
            self@.error is Some,
        ensures
            r@ == self@.error->0,
    {
        match &self.error {
            Some(e) => e.clone(),
            None => String::new(),
        }
    }

    /// Takes the outcome of the operation and returns the files that are no longer needed.
    pub fn advance(&mut self, outcome: &ActionOutcome) -> (r: Vec<String>)
        requires
            old(self)@.consistent(),
        ensures
            (final(self)@, texts(r@)) == old(self)@.next(outcome@),
            final(self)@.consistent(),
    {
        match self.phase {
            Phase::CheckOutput => match outcome {
                ActionOutcome::Yes => {
                    if self.kind == PublicationKind::Beside {
                        let e = note(
                            "publishing output: output already exists: ",
                            self.output.as_str(),
                        );
                        self.refuse(e);
                        one(&self.staging)
                    } else if self.kind == PublicationKind::Conversion && same_path(
                        self.output.as_str(),
                        self.input.as_str(),
                    ) {
                        self.clear_way();
                        nothing()
                    } else {
                        self.phase = Phase::CheckPrevious;
                        nothing()
                    }
                },
                _ => {
                    self.clear_way();
                    nothing()
                },
            },
            Phase::CheckPrevious => match outcome {
                ActionOutcome::Yes => {
                    let e = note("replacement backup already exists: ", self.previous.as_str());
                    self.refuse(e);
                    one(&self.staging)
                },
                _ => {
                    self.phase = Phase::Preserve;
                    nothing()
                },
            },
            Phase::Preserve => match outcome {
                ActionOutcome::Failed(e) => {
                    let e = note("preserving previous output: ", e.as_str());
                    self.refuse(e);
                    one(&self.staging)
                },
                _ => {
                    self.phase = Phase::RemoveOld;
                    nothing()
                },
            },
            Phase::RemoveOld => match outcome {
                ActionOutcome::Failed(e) => {
                    let e = note("removing previous output: ", e.as_str());
                    self.refuse(e);
                    two(&self.previous, &self.staging)
                },
                _ => {
                    self.phase = if self.kind == PublicationKind::Conversion {
                        Phase::CheckLate
                    } else {
                        Phase::Publish
                    };
                    self.replaced = true;
                    nothing()
                },
            },
            Phase::CheckLate => match outcome {
                ActionOutcome::Yes => {
                    let e = note(
                        "publishing converted output: output already exists: ",
                        self.output.as_str(),
                    );
                    self.fail(e);
                    one(&self.staging)
                },
                _ => {
                    self.phase = Phase::MakeFolder;
                    nothing()
                },
            },
            Phase::MakeFolder => match outcome {
                ActionOutcome::Failed(e) => {
                    let e = note("creating original backup directory: ", e.as_str());
                    self.fail(e);
                    one(&self.staging)
                },
                _ => {
                    self.phase = Phase::SetAside;
                    nothing()
                },
            },
            Phase::SetAside => match outcome {
                ActionOutcome::Failed(e) => {
                    let e = note("moving source into original: ", e.as_str());
                    self.fail(e);
                    one(&self.staging)
                },
                _ => {
                    self.phase = Phase::Publish;
                    nothing()
                },
            },
            Phase::Publish => self.after_publish(outcome),
            Phase::BringBack => self.after_bring_back(outcome),
            Phase::Restore => self.after_restore(outcome),
            Phase::Published | Phase::Refused => nothing(),
        }
    }

    fn after_publish(&mut self, outcome: &ActionOutcome) -> (r: Vec<String>)
        requires
            old(self)@.consistent(),
            old(self)@.phase == Phase::Publish,
        ensures
            (final(self)@, texts(r@)) == old(self)@.next(outcome@),
            final(self)@.consistent(),
    {
        match outcome {
            ActionOutcome::Failed(e) => {
                if self.kind == PublicationKind::Conversion {
                    self.phase = Phase::BringBack;
                    self.error = Some(e.clone());
                    nothing()
                } else if self.replaced {
                    self.phase = Phase::Restore;
                    self.error = Some(e.clone());
                    nothing()
                } else {
                    let e = note("publishing output: ", e.as_str());
                    self.refuse(e);
                    one(&self.staging)
                }
            },
            _ => {
                self.phase = Phase::Published;
                if self.replaced {
                    two(&self.staging, &self.previous)
                } else {
                    one(&self.staging)
                }
            },
        }
    }

    fn after_bring_back(&mut self, outcome: &ActionOutcome) -> (r: Vec<String>)
        requires
            old(self)@.consistent(),
            old(self)@.phase == Phase::BringBack,
        ensures
            (final(self)@, texts(r@)) == old(self)@.next(outcome@),
            final(self)@.consistent(),
    {
        let first = self.error_text();
        match outcome {
            ActionOutcome::Failed(e) => {
                let mut text = concat3(
                    "publishing output failed (",
                    first.as_str(),
                    "); source rollback also failed (",
                );
                text.append(e.as_str());
                text.append("). Recover source from ");
                text.append(self.backup.as_str());
                text.append(" and converted file from ");
                text.append(self.staging.as_str());
                self.fail(Some(text));
                nothing()
            },
            _ => {
                let e = note("publishing converted output: ", first.as_str());
                self.fail(e);
                one(&self.staging)
            },
        }
    }

    fn after_restore(&mut self, outcome: &ActionOutcome) -> (r: Vec<String>)
        requires
            old(self)@.consistent(),
            old(self)@.phase == Phase::Restore,
        ensures
            (final(self)@, texts(r@)) == old(self)@.next(outcome@),
            final(self)@.consistent(),
    {
        let first = self.error_text();
        match outcome {
            ActionOutcome::Failed(e) => {
                let text = if self.kind == PublicationKind::Conversion {
                    let mut text = concat3(
                        "conversion failed: ",
                        first.as_str(),
                        "; previous-output rollback also failed (",
                    );
                    text.append(e.as_str());
                    text.append("). Recover the previous output from ");
                    text.append(self.previous.as_str());
                    text
                } else {
                    let mut text = concat3(
                        "publishing replacement failed (",
                        first.as_str(),
                        "); previous-output rollback also failed (",
                    );
                    text.append(e.as_str());
                    text.append("). Recover the previous output from ");
                    text.append(self.previous.as_str());
                    text.append(" and the replacement from ");
                    text.append(self.staging.as_str());
                    text
                };
                self.refuse(Some(text));
                nothing()
            },
            _ => {
                if self.kind == PublicationKind::Conversion {
                    self.phase = Phase::Refused;
                    one(&self.previous)
                } else {
                    let e = note("publishing replacement output: ", first.as_str());
                    self.refuse(e);
                    two(&self.previous, &self.staging)
                }
            },
        }
    }
}

/// What files hold: one number for each content.
pub type Files = Map<Seq<char>, int>;

/// What an operation does to the files where it works.
pub open spec fn effect(files: Files, action: ActionView) -> Files {
    match action {
        ActionView::Check { path } => files,
        ActionView::CopyNew { from, to } => files.insert(to, files[from]),
        ActionView::Remove { path } => files.remove(path),
        ActionView::CreateFolder { path } => files,
        ActionView::Rename { from, to } => files.remove(from).insert(to, files[from]),
    }
}

/// When an operation can have this outcome. A copy works only to a place that is free, and a
/// failed operation changes nothing.
pub open spec fn possible(files: Files, action: ActionView, outcome: OutcomeView) -> bool {
    match (action, outcome) {
        (ActionView::Check { path }, OutcomeView::Yes) => files.contains_key(path),
        (ActionView::Check { path }, _) => !files.contains_key(path),
        (ActionView::CopyNew { from, to }, OutcomeView::Yes) => files.contains_key(from)
            && !files.contains_key(to),
        (ActionView::Rename { from, to }, OutcomeView::Yes) => files.contains_key(from),
        (ActionView::Remove { path }, OutcomeView::Yes) => files.contains_key(path),
        (_, OutcomeView::No) => false,
        _ => true,
    }
}

/// The files after an operation.
pub open spec fn after(files: Files, action: ActionView, outcome: OutcomeView) -> Files {
    if outcome is Yes {
        effect(files, action)
    } else {
        files
    }
}

/// The files after some of the unneeded files have been removed.
pub open spec fn is_tidied(before: Files, after: Files, unneeded: Seq<Seq<char>>) -> bool {
    &&& forall|p: Seq<char>| #[trigger]
        after.contains_key(p) ==> before.contains_key(p) && after[p] == before[p]
    &&& forall|p: Seq<char>| #[trigger]
        before.contains_key(p) && !unneeded.contains(p) ==> after.contains_key(p)
}

/// A file holds this content.
pub open spec fn holds(files: Files, path: Seq<char>, content: int) -> bool {
    files.contains_key(path) && files[path] == content
}

/// The five places of a publication are different, except that the output may take the source's
/// own place in a conversion, and is then written as the source is.
pub open spec fn places_differ(p: PublicationView) -> bool {
    &&& p.staging != p.input && p.staging != p.output && p.staging != p.backup && p.staging
        != p.previous
    &&& p.previous != p.input && p.previous != p.output && p.previous != p.backup
    &&& p.backup != p.input && p.backup != p.output
    &&& p.kind != PublicationKind::Conversion ==> p.output != p.input
    &&& plain(p.output) == plain(p.input) ==> p.output == p.input
}

/// Where the source, the finished file, and an earlier output are in each phase.
pub open spec fn nothing_lost(p: PublicationView, files: Files, source: int, made: int, old: Option<int>) -> bool {
    let own_place = p.output == p.input;
    &&& match p.phase {
        Phase::Publish | Phase::BringBack => if p.kind == PublicationKind::Conversion {
            holds(files, p.backup, source)
        } else {
            holds(files, p.input, source)
        },
        Phase::Published => if p.kind == PublicationKind::Conversion {
            holds(files, p.backup, source)
        } else {
            holds(files, p.input, source)
        },
        Phase::Restore | Phase::Refused => holds(files, p.input, source) || holds(
            files,
            p.backup,
            source,
        ),
        _ => holds(files, p.input, source),
    }
    &&& match p.phase {
        Phase::Published => holds(files, p.output, made),
        Phase::Restore | Phase::Refused => true,
        _ => holds(files, p.staging, made),
    }
    &&& (old is Some && !own_place) ==> match p.phase {
        Phase::CheckOutput | Phase::CheckPrevious | Phase::Preserve => holds(
            files,
            p.output,
            old->0,
        ),
        Phase::RemoveOld => holds(files, p.output, old->0) && holds(files, p.previous, old->0),
        Phase::Published => true,
        Phase::Refused => holds(files, p.output, old->0) || holds(files, p.previous, old->0),
        _ => p.replaced && holds(files, p.previous, old->0),
    }
    &&& (old is None || own_place) ==> !p.replaced && p.phase != Phase::CheckPrevious && p.phase
        != Phase::Preserve && p.phase != Phase::RemoveOld && p.phase != Phase::Restore
    &&& old is None && !own_place && p.phase == Phase::CheckOutput ==> !files.contains_key(p.output)
}

/// Nothing is lost at the start: the source and the finished file are in place, and so is an
/// earlier output, where there is one.
pub proof fn law_publication_starts_with_everything(
    p: PublicationView,
    files: Files,
    source: int,
    made: int,
)
    requires
        p.fresh(),
        places_differ(p),
        holds(files, p.input, source),
        holds(files, p.staging, made),
    ensures
        nothing_lost(
            p,
            files,
            source,
            made,
            if files.contains_key(p.output) {
                Some(files[p.output])
            } else {
                None
            },
        ),
{
}

/// Whatever operations fail, the source is never lost, the finished file is kept until it is in its
/// place or the publication is refused, and an earlier output is kept until it is replaced.
#[verifier::rlimit(60)]
pub proof fn law_publication_loses_nothing(
    p: PublicationView,
    files: Files,
    outcome: OutcomeView,
    tidied: Files,
    source: int,
    made: int,
    old: Option<int>,
)
    requires
        p.consistent(),
        places_differ(p),
        nothing_lost(p, files, source, made, old),
        p.action() is Some,
        possible(files, p.action()->0, outcome),
        is_tidied(after(files, p.action()->0, outcome), tidied, p.next(outcome).1),
    ensures
        nothing_lost(p.next(outcome).0, tidied, source, made, old),
        places_differ(p.next(outcome).0),
{
    let action = p.action()->0;
    let now = after(files, action, outcome);
    let (q, unneeded) = p.next(outcome);
    assert forall|x: Seq<char>| #[trigger] unneeded.contains(x) implies x == p.staging || x
        == p.previous by {
        let i = choose|i: int| 0 <= i < unneeded.len() && unneeded[i] == x;
    }
    assert(!unneeded.contains(p.input) && !unneeded.contains(p.backup) && !unneeded.contains(
        p.output,
    ));
    assert(unneeded.len() == 0 ==> !unneeded.contains(p.staging) && !unneeded.contains(p.previous));
    assert(now.contains_key(p.input) ==> tidied.contains_key(p.input));
    assert(now.contains_key(p.backup) ==> tidied.contains_key(p.backup));
    assert(now.contains_key(p.output) ==> tidied.contains_key(p.output));
    assert(!unneeded.contains(p.staging) && now.contains_key(p.staging) ==> tidied.contains_key(
        p.staging,
    ));
    if unneeded == seq![p.staging] {
        assert(!unneeded.contains(p.previous)) by {
            if unneeded.contains(p.previous) {
                let i = choose|i: int| 0 <= i < unneeded.len() && unneeded[i] == p.previous;
                assert(i == 0);
            }
        }
    }
    assert(!unneeded.contains(p.previous) && now.contains_key(p.previous) ==> tidied.contains_key(
        p.previous,
    ));
}

/// A file that turns up in the output's place once that place is free stays as it is.
pub proof fn law_late_file_is_never_overwritten(
    p: PublicationView,
    files: Files,
    outcome: OutcomeView,
    tidied: Files,
)
    requires
        p.consistent(),
        places_differ(p),
        p.output != p.input,
        p.phase != Phase::RemoveOld,
        p.action() is Some,
        possible(files, p.action()->0, outcome),
        is_tidied(after(files, p.action()->0, outcome), tidied, p.next(outcome).1),
        files.contains_key(p.output),
    ensures
        holds(tidied, p.output, files[p.output]),
{
    let now = after(files, p.action()->0, outcome);
    let unneeded = p.next(outcome).1;
    assert forall|x: Seq<char>| #[trigger] unneeded.contains(x) implies x == p.staging || x
        == p.previous by {
        let i = choose|i: int| 0 <= i < unneeded.len() && unneeded[i] == x;
    }
    assert(now.contains_key(p.output) && !unneeded.contains(p.output));
    assert(tidied.contains_key(p.output));
}

/// The path where the source goes: the folder of originals beside it.
pub open spec fn backup_place(input: Seq<char>) -> Result<Seq<char>, Seq<char>> {
    match (parent(input), file_name(input)) {
        (None, _) => Err("source directory is missing"@),
        (Some(_), None) => Err("source filename is missing"@),
        (Some(folder), Some(name)) => Ok(
            joined(joined(folder, "original"@), name),
        ),
    }
}

/// Where the source goes: the folder of originals beside it.
pub fn backup_path(input: &str) -> (r: Result<String, String>)
    ensures
        match r {
            Ok(path) => backup_place(input@) == Ok::<Seq<char>, Seq<char>>(path@),
            Err(e) => backup_place(input@) == Err::<Seq<char>, Seq<char>>(e@),
        },
{
    let folder = match path_parent(input) {
        Some(folder) => folder,
        None => {
            return Err("source directory is missing".to_owned());
        },
    };
    match path_file_name(input) {
        Some(name) => {
            let originals = path_join(folder.as_str(), "original");
            Ok(path_join(originals.as_str(), name.as_str()))
        },
        None => Err("source filename is missing".to_owned()),
    }
}

/// Where the unfinished output of a task goes, in the folder for temporary files.
pub open spec fn staging_place(
    temporary: Seq<char>,
    output: Seq<char>,
    process: u32,
    task_id: Seq<char>,
) -> Result<Seq<char>, Seq<char>> {
    match extension(output) {
        Some(ext) => Ok(
            joined(temporary, staging_name(text_or(file_stem(output), "output"@), process, task_id, ext)),
        ),
        None => Err("output extension is missing"@),
    }
}

/// Where the unfinished output of a task goes.
pub fn staging_path(temporary: &str, output: &str, process: u32, task_id: &str) -> (r: Result<
    String,
    String,
>)
    ensures
        match r {
            Ok(path) => staging_place(temporary@, output@, process, task_id@) == Ok::<
                Seq<char>,
                Seq<char>,
            >(path@),
            Err(e) => staging_place(temporary@, output@, process, task_id@) == Err::<
                Seq<char>,
                Seq<char>,
            >(e@),
        },
{
    let ext = match path_extension(output) {
        Some(ext) => ext,
        None => {
            return Err("output extension is missing".to_owned());
        },
    };
    let stem = match path_file_stem(output) {
        Some(stem) => stem,
        None => "output".to_owned(),
    };
    let name = staging_file_name(stem.as_str(), process, task_id, ext.as_str());
    Ok(path_join(temporary, name.as_str()))
}

/// Where an earlier output waits, in the folder for temporary files.
pub open spec fn previous_place(
    temporary: Seq<char>,
    output: Seq<char>,
    process: u32,
    task_id: Seq<char>,
) -> Result<Seq<char>, Seq<char>> {
    match file_name(output) {
        Some(name) => Ok(joined(temporary, previous_name(name, process, task_id))),
        None => Err("output filename is missing"@),
    }
}

/// Where an earlier output waits.
pub fn replacement_backup_path(temporary: &str, output: &str, process: u32, task_id: &str) -> (r: Result<
    String,
    String,
>)
    ensures
        match r {
            Ok(path) => previous_place(temporary@, output@, process, task_id@) == Ok::<
                Seq<char>,
                Seq<char>,
            >(path@),
            Err(e) => previous_place(temporary@, output@, process, task_id@) == Err::<
                Seq<char>,
                Seq<char>,
            >(e@),
        },
{
    match path_file_name(output) {
        Some(name) => {
            let waiting = previous_file_name(name.as_str(), process, task_id);
            Ok(path_join(temporary, waiting.as_str()))
        },
        None => Err("output filename is missing".to_owned()),
    }
}

/// How the files of a workflow go to their places.
pub open spec fn kind_of(mode: ContentMode) -> PublicationKind {
    match mode {
        ContentMode::Trim => PublicationKind::BesideReplacing,
        ContentMode::Stabilize | ContentMode::PhotoSlideshow => PublicationKind::Beside,
        _ => PublicationKind::Conversion,
    }
}

/// What a conversion is to make, and where.
#[derive(Debug, PartialEq, Eq)]
pub struct JobPlan {
    pub mode: ContentMode,
    pub input: String,
    pub output: String,
    pub task_id: String,
    /// The folder for temporary files.
    pub temporary: String,
    /// The number of this process.
    pub process: u32,
}

/// The publication that a conversion leads up to, or why it cannot start. `backup_exists` and
/// `staging_exists` tell whether there are files where the source and the unfinished output go.
pub open spec fn planned_publication(job: JobPlan, backup_exists: bool, staging_exists: bool) -> Result<
    PublicationView,
    Seq<char>,
> {
    let replaces = kind_of(job.mode) == PublicationKind::Conversion;
    let backup = backup_place(job.input@);
    if replaces && backup is Err {
        Err(backup->Err_0)
    } else if replaces && backup_exists {
        Err("original backup already exists: "@ + backup->Ok_0)
    } else {
        match (
            staging_place(job.temporary@, job.output@, job.process, job.task_id@),
            previous_place(job.temporary@, job.output@, job.process, job.task_id@),
        ) {
            (Err(e), _) => Err(e),
            (Ok(staging), previous) => if staging_exists {
                Err("staging output already exists: "@ + staging)
            } else {
                match previous {
                    Err(e) => Err(e),
                    Ok(previous) => Ok(
                        PublicationView {
                            kind: kind_of(job.mode),
                            input: job.input@,
                            staging,
                            output: job.output@,
                            backup: if replaces {
                                backup->Ok_0
                            } else {
                                Seq::empty()
                            },
                            previous,
                            phase: Phase::CheckOutput,
                            replaced: false,
                            error: None,
                        },
                    ),
                }
            },
        }
    }
}

/// The publication that a conversion leads up to, or why it cannot start.
pub fn publication_for(job: &JobPlan, backup_exists: bool, staging_exists: bool) -> (r: Result<
    Publication,
    EngineError,
>)
    ensures
        match r {
            Ok(p) => planned_publication(*job, backup_exists, staging_exists) == Ok::<
                PublicationView,
                Seq<char>,
            >(p@),
            Err(e) => e matches EngineError::Failed(message) && planned_publication(
                *job,
                backup_exists,
                staging_exists,
            ) == Err::<PublicationView, Seq<char>>(message@),
        },
{
    let kind = match job.mode {
        ContentMode::Trim => PublicationKind::BesideReplacing,
        ContentMode::Stabilize | ContentMode::PhotoSlideshow => PublicationKind::Beside,
        _ => PublicationKind::Conversion,
    };
    let backup = if kind == PublicationKind::Conversion {
        let path = match backup_path(job.input.as_str()) {
            Ok(path) => path,
            Err(e) => {
                return Err(EngineError::Failed(e));
            },
        };
        if backup_exists {
            return Err(
                EngineError::Failed(concat2("original backup already exists: ", path.as_str())),
            );
        }
        path
    } else {
        let none = String::new();
        assert(none@ =~= Seq::<char>::empty());
        none
    };
    let staging = match staging_path(
        job.temporary.as_str(),
        job.output.as_str(),
        job.process,
        job.task_id.as_str(),
    ) {
        Ok(path) => path,
        Err(e) => {
            return Err(EngineError::Failed(e));
        },
    };
    if staging_exists {
        return Err(
            EngineError::Failed(concat2("staging output already exists: ", staging.as_str())),
        );
    }
    let previous = match replacement_backup_path(
        job.temporary.as_str(),
        job.output.as_str(),
        job.process,
        job.task_id.as_str(),
    ) {
        Ok(path) => path,
        Err(e) => {
            return Err(EngineError::Failed(e));
        },
    };
    Ok(
        Publication::new(
            kind,
            job.input.clone(),
            staging,
            job.output.clone(),
            backup,
            previous,
        ),
    )
}

/// The folder where the originals beside a source go.
pub open spec fn originals_beside(input: Seq<char>) -> Seq<char> {
    match parent(input) {
        Some(folder) => joined(folder, "original"@),
        None => Seq::empty(),
    }
}

/// A job as the queue makes it: temporary files have a folder of their own, and an output stands beside
/// its source, in the source's place only where the source is put aside, and is then written as the
/// source is.
pub open spec fn is_plain_job(job: JobPlan) -> bool {
    &&& job.input@.len() > 0
    &&& !job.task_id@.contains('/')
    &&& parent(job.input@) != Some(trimmed(job.temporary@))
    &&& parent(job.output@) != Some(trimmed(job.temporary@))
    &&& originals_beside(job.input@) != trimmed(job.temporary@)
    &&& plain(job.output@) == plain(job.input@) ==> job.output@ == job.input@
    &&& if kind_of(job.mode) == PublicationKind::Conversion {
        parent(job.output@) == parent(job.input@)
    } else {
        job.output@ != job.input@
    }
}

proof fn lemma_joined_parts(a: Seq<char>, b: Seq<char>)
    requires
        !a.contains('/'),
        !b.contains('/'),
    ensures
        !(a + b).contains('/'),
{
    assert forall|i: int| 0 <= i < (a + b).len() implies (a + b)[i] != '/' by {
        if i < a.len() {
            assert(a[i] != '/');
        } else {
            assert(b[i - a.len()] != '/');
        }
    }
}

proof fn lemma_number_has_no_slash(n: nat)
    ensures
        !decimal(n).contains('/'),
{
    lemma_decimal_round_trip(n);
    assert forall|i: int| 0 <= i < decimal(n).len() implies decimal(n)[i] != '/' by {
        assert(is_digit(decimal(n)[i]));
    }
}

/// The name of an unfinished output and the name under which an earlier one waits are plain names of
/// different lengths.
proof fn lemma_temporary_names(output: Seq<char>, process: u32, task_id: Seq<char>)
    requires
        extension(output) is Some,
        !task_id.contains('/'),
    ensures
        ({
            let staged = staging_name(
                text_or(file_stem(output), "output"@),
                process,
                task_id,
                extension(output)->0,
            );
            let waiting = previous_name(file_name(output)->0, process, task_id);
            &&& is_plain_name(staged)
            &&& is_plain_name(waiting)
            &&& staged.len() != waiting.len()
        }),
{
    reveal_strlit(".videoferry-stage-");
    reveal_strlit(".videoferry-previous-");
    reveal_strlit("-");
    reveal_strlit(".");
    lemma_name_parts(output);
    lemma_after_last_is_clean(trimmed(output), '/');
    let name = last_component(output);
    lemma_after_last_is_clean(name, '.');
    let stem = file_stem(output)->0;
    let ext = extension(output)->0;
    let number = decimal(process as nat);
    lemma_number_has_no_slash(process as nat);
    let a = stem + ".videoferry-stage-"@;
    lemma_joined_parts(stem, ".videoferry-stage-"@);
    lemma_joined_parts(a, number);
    lemma_joined_parts(a + number, "-"@);
    lemma_joined_parts(a + number + "-"@, task_id);
    lemma_joined_parts(a + number + "-"@ + task_id, "."@);
    lemma_joined_parts(a + number + "-"@ + task_id + "."@, ext);
    let b = name + ".videoferry-previous-"@;
    lemma_joined_parts(name, ".videoferry-previous-"@);
    lemma_joined_parts(b, number);
    lemma_joined_parts(b + number, "-"@);
    lemma_joined_parts(b + number + "-"@, task_id);
    assert(name.len() == stem.len() + 1 + ext.len());
}

/// The originals of a source stand in a folder below that of the source.
proof fn lemma_originals_stand_below(input: Seq<char>)
    requires
        backup_place(input) is Ok,
    ensures
        parent(backup_place(input)->Ok_0) == Some(originals_beside(input)),
        parent(input) != Some(originals_beside(input)),
        backup_place(input)->Ok_0.len() > 0,
{
    reveal_strlit("original");
    reveal_strlit("/");
    let folder = parent(input)->0;
    let name = file_name(input)->0;
    let originals = joined(folder, "original"@);
    reveal_strlit(".");
    lemma_after_last_is_clean(trimmed(input), '/');
    assert(originals.len() > folder.len());
    law_parent_undoes_join(folder, "original"@);
    law_parent_undoes_join(originals, name);
}

/// The five places of a publication that is planned for a plain job are different, so that none of its
/// operations touches a file that another one needs.
pub proof fn law_planned_places_differ(job: JobPlan, backup_exists: bool, staging_exists: bool)
    requires
        is_plain_job(job),
        planned_publication(job, backup_exists, staging_exists) is Ok,
    ensures
        places_differ(planned_publication(job, backup_exists, staging_exists)->Ok_0),
        planned_publication(job, backup_exists, staging_exists)->Ok_0.fresh(),
        planned_publication(job, backup_exists, staging_exists)->Ok_0.consistent(),
{
    let p = planned_publication(job, backup_exists, staging_exists)->Ok_0;
    let output = job.output@;
    let temporary = job.temporary@;
    lemma_temporary_names(output, job.process, job.task_id@);
    let staged = staging_name(
        text_or(file_stem(output), "output"@),
        job.process,
        job.task_id@,
        extension(output)->0,
    );
    let waiting = previous_name(file_name(output)->0, job.process, job.task_id@);
    law_parent_undoes_join(temporary, staged);
    law_parent_undoes_join(temporary, waiting);
    assert(p.staging == joined(temporary, staged));
    assert(p.previous == joined(temporary, waiting));
    assert(p.staging != p.previous) by {
        assert(last_component(p.staging) != last_component(p.previous));
    }
    if p.kind == PublicationKind::Conversion {
        lemma_originals_stand_below(job.input@);
    } else {
        assert(parent(p.backup) is None);
        assert(p.backup != p.input);
        assert(p.backup != p.output);
    }
}

/// One operation that was performed: how it went, and the files once those no longer needed were
/// removed, as far as that worked.
pub struct StepTaken {
    pub outcome: OutcomeView,
    pub files: Files,
}

/// Where a publication and the files are after these operations; nothing where the operations cannot
/// have gone like this.
pub open spec fn run_of(p: PublicationView, files: Files, steps: Seq<StepTaken>) -> Option<
    (PublicationView, Files),
>
    decreases steps.len(),
{
    if steps.len() == 0 {
        Some((p, files))
    } else {
        match run_of(p, files, steps.drop_last()) {
            None => None,
            Some((q, before)) => {
                let step = steps.last();
                if q.action() is Some && possible(before, q.action()->0, step.outcome) && is_tidied(
                    after(before, q.action()->0, step.outcome),
                    step.files,
                    q.next(step.outcome).1,
                ) {
                    Some((q.next(step.outcome).0, step.files))
                } else {
                    None
                }
            },
        }
    }
}

proof fn lemma_runs_lose_nothing(
    p: PublicationView,
    files: Files,
    steps: Seq<StepTaken>,
    source: int,
    made: int,
    old: Option<int>,
)
    requires
        p.consistent(),
        places_differ(p),
        nothing_lost(p, files, source, made, old),
        run_of(p, files, steps) is Some,
    ensures
        ({
            let (q, end) = run_of(p, files, steps)->0;
            &&& q.consistent()
            &&& places_differ(q)
            &&& nothing_lost(q, end, source, made, old)
            &&& q.kind == p.kind && q.input == p.input && q.output == p.output
            &&& q.backup == p.backup && q.previous == p.previous
        }),
    decreases steps.len(),
{
    if steps.len() > 0 {
        lemma_runs_lose_nothing(p, files, steps.drop_last(), source, made, old);
        let (q, before) = run_of(p, files, steps.drop_last())->0;
        let step = steps.last();
        law_publication_loses_nothing(q, before, step.outcome, step.files, source, made, old);
        lemma_steps_stay_consistent(q, step.outcome);
    }
}

proof fn lemma_steps_stay_consistent(p: PublicationView, outcome: OutcomeView)
    requires
        p.consistent(),
    ensures
        p.next(outcome).0.consistent(),
        ({
            let q = p.next(outcome).0;
            &&& q.kind == p.kind && q.input == p.input && q.output == p.output
            &&& q.backup == p.backup && q.previous == p.previous
        }),
{
}

/// Whatever operations fail, and however far a publication has come, no file is lost. Once it is over,
/// the finished file is in its place and the source among the originals, or beside the output; or the
/// publication was refused, the source is still where it was or among the originals, and an earlier
/// output is in its place or where it waits.
pub proof fn law_no_failure_loses_a_file(
    job: JobPlan,
    backup_exists: bool,
    staging_exists: bool,
    files: Files,
    steps: Seq<StepTaken>,
    source: int,
    made: int,
)
    requires
        is_plain_job(job),
        planned_publication(job, backup_exists, staging_exists) is Ok,
        ({
            let p = planned_publication(job, backup_exists, staging_exists)->Ok_0;
            &&& holds(files, p.input, source)
            &&& holds(files, p.staging, made)
            &&& run_of(p, files, steps) is Some
        }),
    ensures
        ({
            let p = planned_publication(job, backup_exists, staging_exists)->Ok_0;
            let (q, end) = run_of(p, files, steps)->0;
            &&& holds(end, p.input, source) || holds(end, p.backup, source)
            &&& q.phase == Phase::Published ==> holds(end, p.output, made)
            &&& q.phase == Phase::Published && p.kind == PublicationKind::Conversion ==> holds(
                end,
                p.backup,
                source,
            )
            &&& q.phase == Phase::Published && p.kind != PublicationKind::Conversion ==> holds(
                end,
                p.input,
                source,
            )
            &&& files.contains_key(p.output) && p.output != p.input && q.phase != Phase::Published
                ==> holds(end, p.output, files[p.output]) || holds(
                end,
                p.previous,
                files[p.output],
            )
        }),
{
    law_planned_places_differ(job, backup_exists, staging_exists);
    let p = planned_publication(job, backup_exists, staging_exists)->Ok_0;
    law_publication_starts_with_everything(p, files, source, made);
    let old = if files.contains_key(p.output) {
        Some(files[p.output])
    } else {
        None
    };
    lemma_runs_lose_nothing(p, files, steps, source, made, old);
}

} // verus!
