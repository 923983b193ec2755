//! Changes to a task: its name, its settings, and the photos of a slideshow.

use crate::board::{folders_among, task_named, with_task, Board, BoardView};
use crate::editing::{folders_of, rebuilt, task_replaced};
use crate::form::{FormView, SettingsForm};
use crate::model::{QueueSettings, SettingsView};
use crate::presets::{Surroundings, SurroundingsView};
use crate::queue::{has_id, QueueStatus, QueueTask, TaskView};
use crate::review::ReviewedPhotos;
use crate::run::counts_on;
use crate::selection::SelectionView;
use crate::targets::{rebuild_slideshow_task_images, targets_error, validate_task_targets};
use crate::text::{concat3, decimal, decimal_text, same_text, texts, to_chars, trim_text, trimmed};
use vstd::prelude::*;

verus! {

/// Exactly one item is selected.
pub open spec fn is_single(s: SelectionView) -> bool {
    exists|x: Seq<char>| s.ids == set![x]
}

/// The task whose details are shown, where it is in the queue.
pub open spec fn shown_task(b: BoardView) -> Option<TaskView> {
    match b.selection.primary {
        Some(id) => if has_id(b.tasks, id) {
            Some(task_named(b.tasks, id))
        } else {
            None
        },
        None => None,
    }
}

/// The name of the shown task can be changed: it is the only one selected, and it does not run.
pub open spec fn name_editable(b: BoardView) -> bool {
    is_single(b.selection) && !(b.worker is Some && Some(b.worker->0.task_id)
        == b.selection.primary)
}

/// The settings of the shown task can be changed: it is not completed, and none of its files is.
pub open spec fn settings_editable(b: BoardView, env: SurroundingsView, t: TaskView) -> bool {
    name_editable(b) && t.status != QueueStatus::Completed && counts_on(b, env, t).converted == 0
}

/// The board after the shown task got a name.
pub open spec fn task_renamed(b: BoardView, name: Seq<char>) -> BoardView {
    match shown_task(b) {
        Some(t) => if name_editable(b) && trimmed(name).len() > 0 {
            BoardView {
                tasks: with_task(
                    b.tasks,
                    b.selection.primary->0,
                    TaskView { name: trimmed(name), ..t },
                ),
                ..b
            }.to_save()
        } else {
            b
        },
        None => b,
    }
}

/// The board after the shown task got the form's settings; its earlier runs are forgotten then.
pub open spec fn settings_given(b: BoardView, form: FormView, env: SurroundingsView) -> BoardView {
    match shown_task(b) {
        None => b,
        Some(t) => if !settings_editable(b, env, t) {
            b
        } else {
            match form.validated(env.presets) {
                Err(error) => b.saying(error),
                Ok(settings) => match targets_error(env.disk, settings, t.targets) {
                    Some(error) => b.saying(error),
                    None => {
                        let id = b.selection.primary->0;
                        let changed = rebuilt(env.disk, TaskView { settings, ..t });
                        task_replaced(b, id, changed).watching(
                            folders_among(env.disk, t.targets),
                            settings,
                            env,
                        ).saying("Updated queued task settings"@).to_save().counted(env)
                    },
                },
            }
        },
    }
}

/// The board after a review of the photos of a slideshow was closed with `reviewed`: the task, the
/// photos that it keeps, and the order of all; nothing where fewer than two are kept.
pub open spec fn review_applied(
    b: BoardView,
    reviewed: Option<(Seq<char>, Seq<Seq<char>>, Seq<Seq<char>>)>,
) -> BoardView {
    match reviewed {
        None => b.saying("Keep at least two photos in the slideshow."@),
        Some((id, selected, ordered)) => if has_id(b.tasks, id) {
            let t = task_named(b.tasks, id);
            BoardView {
                tasks: with_task(
                    b.tasks,
                    id,
                    TaskView {
                        name: "Photo slideshow · "@ + decimal(selected.len()) + " photos"@,
                        settings: SettingsView {
                            slideshow_image_paths: selected,
                            slideshow_review_image_paths: ordered,
                            ..t.settings
                        },
                        ..t
                    },
                ),
                ..b
            }.saying("Applied slideshow photo review."@).to_save()
        } else {
            b.to_save()
        },
    }
}

fn one_selected(ids: &Vec<String>) -> (r: bool)
    ensures
        r == exists|x: Seq<char>| texts(ids@).to_set() == set![x],
{
    let ghost all = texts(ids@);
    if ids.len() == 0 {
        proof {
            if exists|x: Seq<char>| all.to_set() == set![x] {
                let x = choose|x: Seq<char>| all.to_set() == set![x];
                assert(set![x].contains(x));
                assert(all.to_set().contains(x));
            }
        }
        return false;
    }
    let mut i: usize = 1;
    while i < ids.len()
        invariant
            1 <= i <= ids@.len(),
            all == texts(ids@),
            forall|k: int| 0 <= k < i ==> #[trigger] all[k] == all[0],
        decreases ids@.len() - i,
    {
        assert(all[i as int] == ids@[i as int]@);
        assert(all[0] == ids@[0]@);
        if !same_text(ids[i].as_str(), ids[0].as_str()) {
            proof {
                if exists|x: Seq<char>| all.to_set() == set![x] {
                    let x = choose|x: Seq<char>| all.to_set() == set![x];
                    assert(all.to_set().contains(all[0]));
                    assert(all.to_set().contains(all[i as int]));
                }
            }
            return false;
        }
        i = i + 1;
    }
    assert(all.to_set() =~= set![all[0]]) by {
        assert forall|x: Seq<char>| #[trigger] all.to_set().contains(x) <==> set![all[0]].contains(x) by {
            if all.to_set().contains(x) {
                let k = choose|k: int| 0 <= k < all.len() && all[k] == x;
                assert(all[k] == all[0]);
            }
            assert(all.to_set().contains(all[0]));
        }
    }
    true
}

impl Board {
    /// Whether the name of the shown task can be changed.
    pub fn name_is_editable(&self) -> (r: bool)
        ensures
            r == name_editable(self@),
    {
        if !one_selected(&self.selection.ids) {
            return false;
        }
        match (&self.worker, &self.selection.primary) {
            (Some(worker), Some(id)) => !same_text(worker.task_id.as_str(), id.as_str()),
            _ => true,
        }
    }

    /// Whether the settings of a task, the shown one, can be changed.
    pub fn settings_are_editable(&self, env: &Surroundings, task: &QueueTask) -> (r: bool)
        ensures
            r == settings_editable(self@, env@, task@),
    {
        self.name_is_editable() && task.status != QueueStatus::Completed && self.display_counts(
            task,
            env,
        ).converted == 0
    }

    fn shown(&self) -> (r: Option<(String, QueueTask)>)
        ensures
            match r {
                Some((id, task)) => self@.selection.primary == Some(id@) && has_id(
                    self@.tasks,
                    id@,
                ) && shown_task(self@) == Some(task@),
                None => shown_task(self@) is None,
            },
    {
        match &self.selection.primary {
            Some(id) => match self.queue.task(id.as_str()) {
                Some(task) => Some((id.clone(), task.clone())),
                None => None,
            },
            None => None,
        }
    }

    /// Gives the shown task a name, where it can be changed and the name is not empty.
    pub fn save_task_name(&mut self, name: &str)
        ensures
            final(self)@ == task_renamed(old(self)@, name@),
    {
        let wanted = trim_text(name);
        if !self.name_is_editable() || to_chars(wanted.as_str()).len() == 0 {
            return;
        }
        if let Some((id, mut task)) = self.shown() {
            task.name = wanted;
            if let Some(stored) = self.queue.task_mut(id.as_str()) {
                *stored = task;
            }
            self.unsaved = true;
        }
    }

    /// Gives the shown task the form's settings, where they can be changed.
    pub fn apply_current_settings(&mut self, form: &SettingsForm, env: &Surroundings)
        requires
            form@.wf(),
        ensures
            final(self)@ == settings_given(old(self)@, form@, env@),
    {
        let (id, mut task) = match self.shown() {
            Some(found) => found,
            None => {
                return;
            },
        };
        if !self.settings_are_editable(env, &task) {
            return;
        }
        let settings = match form.validated_current_settings(&env.presets) {
            Ok(settings) => settings,
            Err(error) => {
                self.activity = error;
                return;
            },
        };
        if let Err(error) = validate_task_targets(&env.disk, &settings, &task.targets) {
            self.activity = error;
            return;
        }
        let folders = folders_of(&env.disk, &task.targets);
        task.settings = settings.clone();
        rebuild_slideshow_task_images(&env.disk, &mut task);
        self.replace_task(id.as_str(), task);
        self.register_folder_watches(&folders, &settings, env);
        self.say("Updated queued task settings");
        self.unsaved = true;
        self.refresh_folder_summaries(env);
    }

    /// Gives a slideshow task the outcome of a review of its photos.
    pub fn apply_photo_review(&mut self, reviewed: Option<ReviewedPhotos>)
        ensures
            final(self)@ == review_applied(
                old(self)@,
                match reviewed {
                    Some(kept) => Some((kept.task_id@, texts(kept.selected@), texts(kept.ordered@))),
                    None => None,
                },
            ),
    {
        match reviewed {
            None => {
                self.say("Keep at least two photos in the slideshow.");
            },
            Some(kept) => {
                if let Some(task) = self.queue.task_mut(kept.task_id.as_str()) {
                    assert(texts(kept.selected@).len() == kept.selected@.len());
                    let count = decimal_text(kept.selected.len() as u128);
                    task.name = concat3("Photo slideshow · ", count.as_str(), " photos");
                    task.settings.slideshow_image_paths = kept.selected;
                    task.settings.slideshow_review_image_paths = kept.ordered;
                    self.say("Applied slideshow photo review.");
                }
                self.unsaved = true;
            },
        }
    }
}

impl SettingsForm {
    /// Shows the settings of a task, and its workflow.
    pub fn load_settings(&mut self, settings: &QueueSettings)
        requires
            old(self)@.wf(),
        ensures
            final(self)@ == (FormView {
                mode: settings@.mode,
                ..old(self)@.showing(settings@)
            }),
            final(self)@.wf(),
    {
        self.apply_settings_to_ui(settings);
        self.mode = settings.mode;
    }
}

} // verus!
