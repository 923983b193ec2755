//! Where the state of the program is kept, and how a state file is replaced without losing the last
//! valid one.

use crate::history::{
    append_history, appended, document_rows, history_document, history_from_bytes, history_to_bytes,
    row_views, CompletedHistoryRow,
};
use crate::json::{holds_rows, json_document, JsonView};
use crate::paths::{joined, path_join};
use crate::publish::{holds, is_tidied, ActionOutcome, Files, OutcomeView};
use crate::text::{concat2, concat3, decimal, decimal_text, opt_text, texts};
use vstd::prelude::*;

verus! {

pub const STATE_DIRECTORY_NAME: &'static str = "VideoFerry";

pub const APP_SETTINGS_FILE: &'static str = "settings.json";

pub const QUEUE_STATE_FILE: &'static str = "queue.json";

pub const COMPLETED_HISTORY_FILE: &'static str = "completed_history.json";

pub const COMPLETED_HISTORY_LOCK_FILE: &'static str = "completed_history.lock";

/// The copy of a state file that is kept while it is replaced.
pub open spec fn kept_copy(path: Seq<char>) -> Seq<char> {
    path + ".bak"@
}

pub fn backup_path(path: &str) -> (r: String)
    ensures
        r@ == kept_copy(path@),
{
    concat2(path, ".bak")
}

/// Where a process writes a state file before it takes its place.
pub open spec fn draft_copy(path: Seq<char>, process: u32) -> Seq<char> {
    path + ".tmp."@ + decimal(process as nat)
}

pub fn temporary_path(path: &str, process: u32) -> (r: String)
    ensures
        r@ == draft_copy(path@, process),
{
    let number = decimal_text(process as u128);
    concat3(path, ".tmp.", number.as_str())
}

/// A state file that exists, with what reading it gave.
#[derive(Debug, PartialEq, Eq)]
pub struct StateFile {
    pub path: String,
    pub content: Result<Vec<u8>, String>,
}

/// The contents of a `StateFile`.
pub struct StateFileView {
    pub path: Seq<char>,
    pub content: Result<Seq<u8>, Seq<char>>,
}

impl View for StateFile {
    type V = StateFileView;

    open spec fn view(&self) -> StateFileView {
        StateFileView {
            path: self.path@,
            content: match self.content {
                Ok(bytes) => Ok(bytes@),
                Err(e) => Err(e@),
            },
        }
    }
}

pub open spec fn file_views(files: Seq<StateFile>) -> Seq<StateFileView> {
    files.map_values(|f: StateFile| f@)
}

/// The document of a state file, or why it has none.
pub open spec fn document_of(f: StateFileView) -> Result<JsonView, Seq<char>> {
    match f.content {
        Ok(bytes) => json_document(bytes),
        Err(e) => Err(e),
    }
}

pub open spec fn reading_error(path: Seq<char>, e: Seq<char>) -> Seq<char> {
    "reading "@ + path + ": "@ + e
}

/// The document of the first file that has one; with none, the last error.
pub open spec fn first_document(files: Seq<StateFileView>, error: Option<Seq<char>>) -> Result<
    Option<JsonView>,
    Seq<char>,
>
    decreases files.len(),
{
    if files.len() == 0 {
        match error {
            Some(e) => Err(e),
            None => Ok(None),
        }
    } else {
        match document_of(files[0]) {
            Ok(document) => Ok(Some(document)),
            Err(e) => first_document(files.drop_first(), Some(reading_error(files[0].path, e))),
        }
    }
}

/// The history in the files, and no rows where there is no file.
pub open spec fn stored_history(files: Seq<StateFileView>) -> Result<
    Seq<Seq<Seq<char>>>,
    Seq<char>,
> {
    match first_document(files, None) {
        Ok(Some(document)) => Ok(document_rows(document)),
        Ok(None) => Ok(Seq::empty()),
        Err(e) => Err(e),
    }
}

/// An attempt to read and understand a state file.
#[derive(Debug, PartialEq, Eq)]
pub struct FileAttempt {
    pub path: String,
    pub error: Option<String>,
}

/// The first attempt that worked; with none, the error of the last one.
pub fn first_valid(attempts: &Vec<FileAttempt>) -> (r: Result<Option<usize>, String>)
    ensures
        match r {
            Ok(Some(i)) => i < attempts@.len() && attempts@[i as int].error is None && forall|j: int|
                0 <= j < i ==> (#[trigger] attempts@[j]).error is Some,
            Ok(None) => attempts@.len() == 0,
            Err(e) => attempts@.len() > 0 && (forall|j: int|
                0 <= j < attempts@.len() ==> (#[trigger] attempts@[j]).error is Some) && e@
                == reading_error(attempts@.last().path@, attempts@.last().error->0@),
        },
{
    let mut last: Option<String> = None;
    let mut i: usize = 0;
    while i < attempts.len()
        invariant
            i <= attempts@.len(),
            forall|j: int| 0 <= j < i ==> (#[trigger] attempts@[j]).error is Some,
            i == 0 ==> last is None,
            i > 0 ==> last is Some && last->0@ == reading_error(
                attempts@[i - 1].path@,
                attempts@[i - 1].error->0@,
            ),
        decreases attempts@.len() - i,
    {
        match &attempts[i].error {
            None => {
                return Ok(Some(i));
            },
            Some(e) => {
                let mut text = concat3("reading ", attempts[i].path.as_str(), ": ");
                text.append(e.as_str());
                last = Some(text);
            },
        }
        i = i + 1;
    }
    match last {
        None => Ok(None),
        Some(e) => Err(e),
    }
}

/// The folders that hold the state.
#[derive(Debug, PartialEq, Eq)]
pub struct StateStore {
    pub root: String,
    /// Where an older version of the program kept its state.
    pub legacy_root: Option<String>,
}

/// Where a state file and its kept copy are looked for.
pub open spec fn places_in(root: Seq<char>, file: Seq<char>) -> Seq<Seq<char>> {
    seq![joined(root, file), kept_copy(joined(root, file))]
}

/// Where the system keeps what belongs to programs and to the user.
#[derive(Debug, PartialEq, Eq)]
pub struct SystemFolders {
    pub windows: bool,
    pub local_app_data: Option<String>,
    pub app_data: Option<String>,
    pub user_profile: Option<String>,
    pub home: Option<String>,
    /// The folder that the program was started in.
    pub current: String,
}

/// Where the state of the program goes.
pub open spec fn data_place(f: SystemFolders) -> Seq<char> {
    let own = STATE_DIRECTORY_NAME@;
    let hidden = ".videoferry"@;
    if f.windows && f.local_app_data is Some {
        joined(f.local_app_data->0@, own)
    } else if f.windows && f.app_data is Some {
        joined(f.app_data->0@, own)
    } else if f.windows && f.user_profile is Some {
        joined(f.user_profile->0@, hidden)
    } else if !f.windows && f.home is Some {
        joined(joined(joined(f.home->0@, ".local"@), "share"@), own)
    } else {
        joined(f.current@, hidden)
    }
}

/// Where the state of the program goes.
pub fn app_data_directory(folders: &SystemFolders) -> (r: String)
    ensures
        r@ == data_place(*folders),
{
    if folders.windows {
        if let Some(root) = &folders.local_app_data {
            return path_join(root.as_str(), STATE_DIRECTORY_NAME);
        }
        if let Some(root) = &folders.app_data {
            return path_join(root.as_str(), STATE_DIRECTORY_NAME);
        }
        if let Some(profile) = &folders.user_profile {
            return path_join(profile.as_str(), ".videoferry");
        }
    } else if let Some(home) = &folders.home {
        let local = path_join(home.as_str(), ".local");
        let share = path_join(local.as_str(), "share");
        return path_join(share.as_str(), STATE_DIRECTORY_NAME);
    }
    path_join(folders.current.as_str(), ".videoferry")
}

impl StateStore {
    pub fn at(root: String) -> (r: Self)
        ensures
            r.root == root,
            r.legacy_root is None,
    {
        StateStore { root, legacy_root: None }
    }

    /// The files that may hold a state, in the order in which they are tried.
    pub fn candidates(&self, file_name: &str) -> (r: Vec<String>)
        ensures
            texts(r@) == places_in(self.root@, file_name@) + match opt_text(self.legacy_root) {
                Some(root) => places_in(root, file_name@),
                None => Seq::empty(),
            },
    {
        let mut r: Vec<String> = Vec::new();
        let path = path_join(self.root.as_str(), file_name);
        let kept = backup_path(path.as_str());
        r.push(path);
        r.push(kept);
        let ghost first = places_in(self.root@, file_name@);
        assert(texts(r@) =~= first);
        match &self.legacy_root {
            Some(root) => {
                let path = path_join(root.as_str(), file_name);
                let kept = backup_path(path.as_str());
                r.push(path);
                r.push(kept);
                assert(texts(r@) =~= first + places_in(root@, file_name@));
            },
            None => {
                assert(texts(r@) =~= first + Seq::<Seq<char>>::empty());
            },
        }
        r
    }

    pub fn history_lock_path(&self) -> (r: String)
        ensures
            r@ == joined(self.root@, "completed_history.lock"@),
    {
        path_join(self.root.as_str(), COMPLETED_HISTORY_LOCK_FILE)
    }

    /// The history in the files that exist.
    pub fn load_history(&self, files: &Vec<StateFile>) -> (r: Result<
        Vec<CompletedHistoryRow>,
        String,
    >)
        ensures
            match r {
                Ok(rows) => stored_history(file_views(files@)) == Ok::<
                    Seq<Seq<Seq<char>>>,
                    Seq<char>,
                >(row_views(rows@)),
                Err(e) => stored_history(file_views(files@)) == Err::<
                    Seq<Seq<Seq<char>>>,
                    Seq<char>,
                >(e@),
            },
    {
        let ghost all = file_views(files@);
        let mut last: Option<String> = None;
        let mut i: usize = 0;
        assert(all.skip(0) =~= all);
        while i < files.len()
            invariant
                i <= files@.len(),
                all == file_views(files@),
                first_document(all, None) == first_document(all.skip(i as int), opt_text(last)),
            decreases files@.len() - i,
        {
            assert(all[i as int] == files@[i as int]@);
            assert(all.skip(i as int)[0] == all[i as int]);
            assert(all.skip(i as int).drop_first() =~= all.skip(i + 1));
            let failure = match &files[i].content {
                Ok(bytes) => match history_from_bytes(bytes) {
                    Ok(rows) => {
                        return Ok(rows);
                    },
                    Err(e) => e,
                },
                Err(e) => e.clone(),
            };
            let mut text = concat3("reading ", files[i].path.as_str(), ": ");
            text.append(failure.as_str());
            last = Some(text);
            i = i + 1;
        }
        match last {
            None => {
                let rows: Vec<CompletedHistoryRow> = Vec::new();
                assert(row_views(rows@) =~= Seq::<Seq<Seq<char>>>::empty());
                Ok(rows)
            },
            Some(e) => Err(e),
        }
    }

    /// The bytes of the history with one more row before the stored ones.
    pub fn append_history(&self, row: CompletedHistoryRow, files: &Vec<StateFile>) -> (r: Result<
        Vec<u8>,
        String,
    >)
        ensures
            match stored_history(file_views(files@)) {
                Ok(rows) => r matches Ok(bytes) && bytes@ == history_document(appended(row@, rows)) && (
                json_document(bytes@) matches Ok(document) && holds_rows(
                    document,
                    appended(row@, rows),
                ) && document_rows(document) == appended(row@, rows)),
                Err(e) => r matches Err(text) && text@ == e,
            },
    {
        match self.load_history(files) {
            Ok(existing) => {
                let merged = append_history(row, &existing);
                history_to_bytes(&merged)
            },
            Err(e) => Err(e),
        }
    }

    /// The bytes of a history without rows.
    pub fn clear_history(&self) -> (r: Result<Vec<u8>, String>)
        ensures
            r matches Ok(bytes) && bytes@ == history_document(Seq::empty()) && (json_document(
                bytes@,
            ) matches Ok(document) && holds_rows(document, Seq::empty()) && document_rows(document)
                == Seq::<Seq<Seq<char>>>::empty()),
    {
        let rows: Vec<CompletedHistoryRow> = Vec::new();
        assert(row_views(rows@) =~= Seq::<Seq<Seq<char>>>::empty());
        history_to_bytes(&rows)
    }

    /// The replacement of a state file.
    pub fn replacement(&self, file_name: &str, process: u32) -> (r: StateWrite)
        ensures
            r@ == (WriteView {
                root: self.root@,
                destination: joined(self.root@, file_name@),
                temporary: draft_copy(joined(self.root@, file_name@), process),
                backup: kept_copy(joined(self.root@, file_name@)),
                phase: WritePhase::CreateFolder,
                had_destination: false,
                error: None,
            }),
            r@.consistent(),
            places_differ(r@),
    {
        let destination = path_join(self.root.as_str(), file_name);
        let temporary = temporary_path(destination.as_str(), process);
        let backup = backup_path(destination.as_str());
        proof {
            reveal_strlit(".bak");
            reveal_strlit(".tmp.");
            assert(".bak"@.len() == 4 && ".tmp."@.len() == 5);
            assert(temporary@[(destination@.len() + 1) as int] == 't');
            assert(backup@[(destination@.len() + 1) as int] == 'b');
        }
        StateWrite {
            root: self.root.clone(),
            destination,
            temporary,
            backup,
            phase: WritePhase::CreateFolder,
            had_destination: false,
            error: None,
        }
    }
}

/// Where the replacement of a state file has come to.
#[derive(Debug, Clone, Copy, PartialEq, Eq, Structural)]
pub enum WritePhase {
    CreateFolder,
    /// Write the new state beside the old one.
    WriteDraft,
    CheckBackup,
    RemoveBackup,
    CheckDestination,
    /// Move the old state aside.
    MoveAside,
    /// Move the new state to its place.
    Publish,
    /// Move the old state back.
    BringBack,
    Written,
    Refused,
}

/// One file operation of a replacement.
#[derive(Debug, PartialEq, Eq)]
pub enum WriteAction {
    CreateFolder { path: String },
    /// Write the whole new state to a file.
    Write { path: String },
    Check { path: String },
    Remove { path: String },
    Rename { from: String, to: String },
}

/// The contents of a `WriteAction`.
pub enum WriteActionView {
    CreateFolder { path: Seq<char> },
    Write { path: Seq<char> },
    Check { path: Seq<char> },
    Remove { path: Seq<char> },
    Rename { from: Seq<char>, to: Seq<char> },
}

impl View for WriteAction {
    type V = WriteActionView;

    open spec fn view(&self) -> WriteActionView {
        match *self {
            WriteAction::CreateFolder { path } => WriteActionView::CreateFolder { path: path@ },
            WriteAction::Write { path } => WriteActionView::Write { path: path@ },
            WriteAction::Check { path } => WriteActionView::Check { path: path@ },
            WriteAction::Remove { path } => WriteActionView::Remove { path: path@ },
            WriteAction::Rename { from, to } => WriteActionView::Rename { from: from@, to: to@ },
        }
    }
}

/// The replacement of a state file.
#[derive(Debug, PartialEq, Eq)]
pub struct StateWrite {
    pub root: String,
    pub destination: String,
    pub temporary: String,
    pub backup: String,
    pub phase: WritePhase,
    pub had_destination: bool,
    pub error: Option<String>,
}

/// The contents of a `StateWrite`.
pub struct WriteView {
    pub root: Seq<char>,
    pub destination: Seq<char>,
    pub temporary: Seq<char>,
    pub backup: Seq<char>,
    pub phase: WritePhase,
    pub had_destination: bool,
    pub error: Option<Seq<char>>,
}

impl View for StateWrite {
    type V = WriteView;

    open spec fn view(&self) -> WriteView {
        WriteView {
            root: self.root@,
            destination: self.destination@,
            temporary: self.temporary@,
            backup: self.backup@,
            phase: self.phase,
            had_destination: self.had_destination,
            error: opt_text(self.error),
        }
    }
}

impl WriteView {
    pub open spec fn at(self, phase: WritePhase) -> WriteView {
        WriteView { phase, ..self }
    }

    pub open spec fn refused(self, what: Seq<char>, path: Seq<char>, e: Seq<char>) -> WriteView {
        WriteView {
            phase: WritePhase::Refused,
            error: Some(what + path + ": "@ + e),
            ..self
        }
    }

    pub open spec fn action(self) -> Option<WriteActionView> {
        match self.phase {
            WritePhase::CreateFolder => Some(WriteActionView::CreateFolder { path: self.root }),
            WritePhase::WriteDraft => Some(WriteActionView::Write { path: self.temporary }),
            WritePhase::CheckBackup => Some(WriteActionView::Check { path: self.backup }),
            WritePhase::RemoveBackup => Some(WriteActionView::Remove { path: self.backup }),
            WritePhase::CheckDestination => Some(
                WriteActionView::Check { path: self.destination },
            ),
            WritePhase::MoveAside => Some(
                WriteActionView::Rename { from: self.destination, to: self.backup },
            ),
            WritePhase::Publish => Some(
                WriteActionView::Rename { from: self.temporary, to: self.destination },
            ),
            WritePhase::BringBack => Some(
                WriteActionView::Rename { from: self.backup, to: self.destination },
            ),
            WritePhase::Written | WritePhase::Refused => None,
        }
    }

    /// What an outcome leads to, and the files that are then no longer needed.
    pub open spec fn next(self, outcome: OutcomeView) -> (WriteView, Seq<Seq<char>>) {
        match (self.phase, outcome) {
            (WritePhase::CreateFolder, OutcomeView::Failed(e)) => (
                self.refused("creating settings directory "@, self.root, e),
                Seq::empty(),
            ),
            (WritePhase::CreateFolder, _) => (self.at(WritePhase::WriteDraft), Seq::empty()),
            (WritePhase::WriteDraft, OutcomeView::Failed(e)) => (
                self.refused("writing "@, self.temporary, e),
                seq![self.temporary],
            ),
            (WritePhase::WriteDraft, _) => (self.at(WritePhase::CheckBackup), Seq::empty()),
            (WritePhase::CheckBackup, OutcomeView::Yes) => (
                self.at(WritePhase::RemoveBackup),
                Seq::empty(),
            ),
            (WritePhase::CheckBackup, _) => (self.at(WritePhase::CheckDestination), Seq::empty()),
            (WritePhase::RemoveBackup, OutcomeView::Failed(e)) => (
                self.refused("removing stale "@, self.backup, e),
                Seq::empty(),
            ),
            (WritePhase::RemoveBackup, _) => (self.at(WritePhase::CheckDestination), Seq::empty()),
            (WritePhase::CheckDestination, OutcomeView::Yes) => (
                WriteView { phase: WritePhase::MoveAside, had_destination: true, ..self },
                Seq::empty(),
            ),
            (WritePhase::CheckDestination, _) => (self.at(WritePhase::Publish), Seq::empty()),
            (WritePhase::MoveAside, OutcomeView::Failed(e)) => (
                self.refused("preparing replacement for "@, self.destination, e),
                Seq::empty(),
            ),
            (WritePhase::MoveAside, _) => (self.at(WritePhase::Publish), Seq::empty()),
            (WritePhase::Publish, OutcomeView::Failed(e)) => {
                let failed = self.refused("publishing "@, self.destination, e);
                if self.had_destination {
                    (failed.at(WritePhase::BringBack), Seq::empty())
                } else {
                    (failed, seq![self.temporary])
                }
            },
            (WritePhase::Publish, _) => (
                self.at(WritePhase::Written),
                if self.had_destination {
                    seq![self.backup]
                } else {
                    Seq::empty()
                },
            ),
            (WritePhase::BringBack, _) => (self.at(WritePhase::Refused), seq![self.temporary]),
            (WritePhase::Written, _) | (WritePhase::Refused, _) => (self, Seq::empty()),
        }
    }

    pub open spec fn consistent(self) -> bool {
        &&& self.phase == WritePhase::BringBack ==> self.had_destination
        &&& self.phase == WritePhase::BringBack || self.phase == WritePhase::Refused
            ==> self.error is Some
        &&& self.phase == WritePhase::MoveAside ==> self.had_destination
        &&& self.phase == WritePhase::CreateFolder || self.phase == WritePhase::WriteDraft
            || self.phase == WritePhase::CheckBackup || self.phase == WritePhase::RemoveBackup
            || self.phase == WritePhase::CheckDestination ==> !self.had_destination
    }
}

impl StateWrite {
    /// The next file operation; none when the replacement is over.
    pub fn action(&self) -> (r: Option<WriteAction>)
        ensures
            match r {
                Some(a) => self@.action() == Some(a@),
                None => self@.action() is None,
            },
    {
        match self.phase {
            WritePhase::CreateFolder => Some(WriteAction::CreateFolder { path: self.root.clone() }),
            WritePhase::WriteDraft => Some(WriteAction::Write { path: self.temporary.clone() }),
            WritePhase::CheckBackup => Some(WriteAction::Check { path: self.backup.clone() }),
            WritePhase::RemoveBackup => Some(WriteAction::Remove { path: self.backup.clone() }),
            WritePhase::CheckDestination => Some(
                WriteAction::Check { path: self.destination.clone() },
            ),
            WritePhase::MoveAside => Some(
                WriteAction::Rename { from: self.destination.clone(), to: self.backup.clone() },
            ),
            WritePhase::Publish => Some(
                WriteAction::Rename { from: self.temporary.clone(), to: self.destination.clone() },
            ),
            WritePhase::BringBack => Some(
                WriteAction::Rename { from: self.backup.clone(), to: self.destination.clone() },
            ),
            WritePhase::Written | WritePhase::Refused => None,
        }
    }

    fn refuse(&mut self, what: &str, path: String, e: &str)
        ensures
            final(self)@ == old(self)@.refused(what@, path@, e@),
    {
        let mut text = concat3(what, path.as_str(), ": ");
        text.append(e);
        self.error = Some(text);
        self.phase = WritePhase::Refused;
    }

    /// Takes the outcome of the operation and returns the files that are no longer needed.
    pub fn advance(&mut self, outcome: &ActionOutcome) -> (r: Vec<String>)
        requires
            old(self)@.consistent(),
        ensures
            (final(self)@, texts(r@)) == old(self)@.next(outcome@),
            final(self)@.consistent(),
    {
        let mut unneeded: Vec<String> = Vec::new();
        let ghost start = self@;
        assert(texts(unneeded@) =~= Seq::<Seq<char>>::empty());
        match self.phase {
            WritePhase::CreateFolder => match outcome {
                ActionOutcome::Failed(e) => {
                    let path = self.root.clone();
                    self.refuse("creating settings directory ", path, e.as_str());
                },
                _ => {
                    self.phase = WritePhase::WriteDraft;
                },
            },
            WritePhase::WriteDraft => match outcome {
                ActionOutcome::Failed(e) => {
                    let path = self.temporary.clone();
                    self.refuse("writing ", path, e.as_str());
                    unneeded.push(self.temporary.clone());
                    assert(texts(unneeded@) =~= seq![start.temporary]);
                },
                _ => {
                    self.phase = WritePhase::CheckBackup;
                },
            },
            WritePhase::CheckBackup => match outcome {
                ActionOutcome::Yes => {
                    self.phase = WritePhase::RemoveBackup;
                },
                _ => {
                    self.phase = WritePhase::CheckDestination;
                },
            },
            WritePhase::RemoveBackup => match outcome {
                ActionOutcome::Failed(e) => {
                    let path = self.backup.clone();
                    self.refuse("removing stale ", path, e.as_str());
                },
                _ => {
                    self.phase = WritePhase::CheckDestination;
                },
            },
            WritePhase::CheckDestination => match outcome {
                ActionOutcome::Yes => {
                    self.phase = WritePhase::MoveAside;
                    self.had_destination = true;
                },
                _ => {
                    self.phase = WritePhase::Publish;
                },
            },
            WritePhase::MoveAside => match outcome {
                ActionOutcome::Failed(e) => {
                    let path = self.destination.clone();
                    self.refuse("preparing replacement for ", path, e.as_str());
                },
                _ => {
                    self.phase = WritePhase::Publish;
                },
            },
            WritePhase::Publish => match outcome {
                ActionOutcome::Failed(e) => {
                    let path = self.destination.clone();
                    self.refuse("publishing ", path, e.as_str());
                    if self.had_destination {
                        self.phase = WritePhase::BringBack;
                    } else {
                        unneeded.push(self.temporary.clone());
                        assert(texts(unneeded@) =~= seq![start.temporary]);
                    }
                },
                _ => {
                    self.phase = WritePhase::Written;
                    if self.had_destination {
                        unneeded.push(self.backup.clone());
                        assert(texts(unneeded@) =~= seq![start.backup]);
                    }
                },
            },
            WritePhase::BringBack => {
                self.phase = WritePhase::Refused;
                unneeded.push(self.temporary.clone());
                assert(texts(unneeded@) =~= seq![start.temporary]);
            },
            WritePhase::Written | WritePhase::Refused => {},
        }
        unneeded
    }
}

pub open spec fn places_differ(w: WriteView) -> bool {
    w.destination != w.temporary && w.destination != w.backup && w.temporary != w.backup
}

/// What the files can be after an operation. A write that fails may leave anything in its file; any
/// other operation that fails changes nothing.
pub open spec fn write_step(
    before: Files,
    action: WriteActionView,
    outcome: OutcomeView,
    after: Files,
    new_state: int,
) -> bool {
    match (action, outcome) {
        (WriteActionView::Write { path }, OutcomeView::Yes) => after == before.insert(
            path,
            new_state,
        ),
        (WriteActionView::Write { path }, OutcomeView::Failed(_)) => after.remove(path)
            == before.remove(path),
        (WriteActionView::Check { path }, OutcomeView::Yes) => before.contains_key(path) && after
            == before,
        (WriteActionView::Check { path }, _) => !before.contains_key(path) && after == before,
        (WriteActionView::Remove { path }, OutcomeView::Yes) => after == before.remove(path),
        (WriteActionView::Rename { from, to }, OutcomeView::Yes) => before.contains_key(from)
            && after == before.remove(from).insert(to, before[from]),
        (_, OutcomeView::No) => false,
        _ => after == before,
    }
}

/// Where the old and the new state are in each phase. A reader that tries the state file and then
/// its kept copy finds one of them.
pub open spec fn state_survives(
    w: WriteView,
    files: Files,
    former: int,
    new_state: int,
) -> bool {
    match w.phase {
        WritePhase::CreateFolder | WritePhase::WriteDraft => holds(files, w.destination, former),
        WritePhase::CheckBackup | WritePhase::RemoveBackup => holds(files, w.destination, former)
            && holds(files, w.temporary, new_state),
        WritePhase::CheckDestination | WritePhase::MoveAside => holds(
            files,
            w.destination,
            former,
        ) && holds(files, w.temporary, new_state) && !files.contains_key(w.backup),
        WritePhase::Publish => w.had_destination && holds(files, w.backup, former) && holds(
            files,
            w.temporary,
            new_state,
        ),
        WritePhase::BringBack => holds(files, w.backup, former),
        WritePhase::Written => holds(files, w.destination, new_state) && !files.contains_key(
            w.temporary,
        ),
        WritePhase::Refused => holds(files, w.destination, former) || holds(
            files,
            w.backup,
            former,
        ),
    }
}

/// Whatever operations fail, the old state stays readable until the new one is in its place. A
/// replacement that worked leaves no draft, and no copy where the copy could be removed.
pub proof fn law_replacing_keeps_a_readable_state(
    w: WriteView,
    files: Files,
    outcome: OutcomeView,
    after: Files,
    tidied: Files,
    former: int,
    new_state: int,
)
    requires
        w.consistent(),
        places_differ(w),
        state_survives(w, files, former, new_state),
        w.action() is Some,
        write_step(files, w.action()->0, outcome, after, new_state),
        is_tidied(after, tidied, w.next(outcome).1),
    ensures
        state_survives(w.next(outcome).0, tidied, former, new_state),
        w.next(outcome).0.phase == WritePhase::Written ==> w.next(outcome).1 == seq![w.backup],
{
    let unneeded = w.next(outcome).1;
    if unneeded == seq![w.temporary] {
        assert(!unneeded.contains(w.destination) && !unneeded.contains(w.backup)) by {
            assert forall|x: Seq<char>| #[trigger] unneeded.contains(x) implies x == w.temporary by {
                let i = choose|i: int| 0 <= i < unneeded.len() && unneeded[i] == x;
            }
        }
    }
    if unneeded == seq![w.backup] {
        assert(!unneeded.contains(w.destination)) by {
            assert forall|x: Seq<char>| #[trigger] unneeded.contains(x) implies x == w.backup by {
                let i = choose|i: int| 0 <= i < unneeded.len() && unneeded[i] == x;
            }
        }
    }
    assert(after.contains_key(w.destination) && !unneeded.contains(w.destination)
        ==> tidied.contains_key(w.destination));
    assert(after.contains_key(w.backup) && !unneeded.contains(w.backup) ==> tidied.contains_key(
        w.backup,
    ));
    assert(after.contains_key(w.temporary) && !unneeded.contains(w.temporary)
        ==> tidied.contains_key(w.temporary));
    assert(tidied.contains_key(w.destination) ==> tidied[w.destination] == after[w.destination]);
    assert(tidied.contains_key(w.backup) ==> tidied[w.backup] == after[w.backup]);
    assert(tidied.contains_key(w.temporary) ==> after.contains_key(w.temporary));
    if w.phase == WritePhase::WriteDraft && outcome is Failed {
        assert(after.remove(w.temporary)[w.destination] == files.remove(
            w.temporary,
        )[w.destination]);
        assert(after.remove(w.temporary).contains_key(w.destination));
    }
}

/// A state that is where the replacement left it is found by a reader: the new state, or the former
/// one, is the first valid document of the state file and its kept copy.
pub proof fn law_reader_finds_a_state(first: StateFileView, second: StateFileView, document: JsonView)
    requires
        document_of(first) is Err,
        document_of(second) == Ok::<JsonView, Seq<char>>(document),
    ensures
        first_document(seq![first, second], None) == Ok::<Option<JsonView>, Seq<char>>(
            Some(document),
        ),
        first_document(seq![second, first], None) == Ok::<Option<JsonView>, Seq<char>>(
            Some(document),
        ),
{
    let files = seq![first, second];
    assert(files.drop_first() =~= seq![second]);
    reveal_with_fuel(first_document, 3);
}

} // verus!
