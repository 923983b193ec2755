//! What the front end can change in the settings form.

use crate::controller::{ControllerView, SlintController};
use crate::encoding::{
    fps_modes_for, is_number_single, nearest_level, normalized_quality, offered_fps_modes,
    quality_limit, speed_options, speed_presets,
};
use crate::form::{allowed_encoders, last_place, offered_encoders, with_new, FormView};
use crate::model::{all_modes, ContentMode, FrameRate};
use crate::presets::{shares_lowest_fps, Presets};
use crate::settings_rows::{stabilize_strengths, strength_names};
use crate::text::texts;
use crate::time::Duration;
use vstd::prelude::*;

verus! {

impl SlintController {
    /// Chooses a workflow by its place.
    pub fn set_mode(&mut self, index: usize, presets: &Presets)
        requires
            old(self)@.wf(),
        ensures
            final(self)@ == if index < 6 && all_modes()[index as int] != old(self)@.form.mode {
                old(self)@.with_form(
                    old(self)@.form.in_mode(presets@, all_modes()[index as int]),
                ).synced(presets@)
            } else {
                old(self)@
            },
            final(self)@.wf(),
    {
        if index >= 6 {
            return;
        }
        let modes = ContentMode::all();
        let mode = modes[index];
        if mode == self.form.mode {
            return;
        }
        self.form.set_mode(presets, mode);
        self.sync_preferences(presets);
    }

    /// Chooses an encoder by its place among those on offer.
    pub fn set_encoder(&mut self, index: usize, presets: &Presets)
        requires
            old(self)@.wf(),
        ensures
            ({
                let offered = offered_encoders(old(self)@.form.mode, old(self)@.available_encoders);
                final(self)@ == if index < offered.len() && offered[index as int] != old(
                    self,
                )@.form.encoder {
                    old(self)@.with_form(
                        old(self)@.form.with_encoder(presets@, offered[index as int]),
                    ).synced(presets@)
                } else {
                    old(self)@
                }
            }),
            final(self)@.wf(),
    {
        let offered = allowed_encoders(self.form.mode, &self.available_encoders);
        if index >= offered.len() || offered[index] == self.form.encoder {
            return;
        }
        self.form.set_encoder(presets, offered[index]);
        self.sync_preferences(presets);
    }

    /// Sets the quality level to the nearest one of the encoder; `bits` is the level asked for, in its
    /// single-precision form.
    pub fn set_quality(&mut self, bits: u32, presets: &Presets)
        requires
            old(self)@.wf(),
            is_number_single(bits),
        ensures
            final(self)@ == old(self)@.with_form(
                FormView {
                    quality_crf: nearest_level(bits, quality_limit(old(self)@.form.encoder)),
                    ..old(self)@.form
                },
            ).synced(presets@),
            final(self)@.wf(),
    {
        self.form.quality_crf = normalized_quality(self.form.encoder, bits);
        self.sync_preferences(presets);
    }

    /// Chooses how the frame rate is set, by its place among the choices.
    pub fn set_fps_mode(&mut self, index: usize, presets: &Presets)
        requires
            old(self)@.wf(),
        ensures
            ({
                let modes = offered_fps_modes(
                    shares_lowest_fps(presets@, old(self)@.form.mode, old(self)@.form.encoder),
                );
                final(self)@ == if index < modes.len() {
                    old(self)@.with_form(
                        FormView { fps_mode: modes[index as int], ..old(self)@.form },
                    ).synced(presets@)
                } else {
                    old(self)@
                }
            }),
            final(self)@.wf(),
    {
        let modes = fps_modes_for(presets.share_lowest_fps(self.form.mode, self.form.encoder));
        if index >= modes.len() {
            return;
        }
        self.form.fps_mode = modes[index];
        self.sync_preferences(presets);
    }

    /// Sets the frame rate, where it is a finite positive one.
    pub fn set_explicit_fps(&mut self, rate: FrameRate, presets: &Presets)
        requires
            old(self)@.wf(),
        ensures
            final(self)@ == if rate.usable() {
                old(self)@.with_form(FormView { explicit_fps: rate, ..old(self)@.form }).synced(
                    presets@,
                )
            } else {
                old(self)@
            },
            final(self)@.wf(),
    {
        if rate.is_usable() {
            self.form.explicit_fps = rate;
            self.sync_preferences(presets);
        }
    }

    pub fn set_trim_start(&mut self, value: String, presets: &Presets)
        requires
            old(self)@.wf(),
        ensures
            final(self)@ == old(self)@.with_form(
                FormView { trim_start_text: value@, ..old(self)@.form },
            ).synced(presets@),
            final(self)@.wf(),
    {
        self.form.trim_start_text = value;
        self.sync_preferences(presets);
    }

    pub fn set_trim_end(&mut self, value: String, presets: &Presets)
        requires
            old(self)@.wf(),
        ensures
            final(self)@ == old(self)@.with_form(
                FormView { trim_end_text: value@, ..old(self)@.form },
            ).synced(presets@),
            final(self)@.wf(),
    {
        self.form.trim_end_text = value;
        self.sync_preferences(presets);
    }

    pub fn set_apply_lut(&mut self, enabled: bool, presets: &Presets)
        requires
            old(self)@.wf(),
        ensures
            final(self)@ == old(self)@.with_form(
                FormView { apply_lut: enabled, ..old(self)@.form },
            ).synced(presets@),
            final(self)@.wf(),
    {
        self.form.apply_lut = enabled;
        self.sync_preferences(presets);
    }

    /// Chooses the strength of stabilization by its place.
    pub fn set_stabilize_strength(&mut self, index: usize, presets: &Presets)
        requires
            old(self)@.wf(),
        ensures
            final(self)@ == if index < 5 {
                old(self)@.with_form(
                    FormView {
                        stabilize_strength: strength_names()[index as int],
                        ..old(self)@.form
                    },
                ).synced(presets@)
            } else {
                old(self)@
            },
            final(self)@.wf(),
    {
        let strengths = stabilize_strengths();
        assert(texts(strengths@).len() == strengths@.len());
        if index >= strengths.len() {
            return;
        }
        assert(texts(strengths@)[index as int] == strengths@[index as int]@);
        self.form.stabilize_strength = strengths[index].clone();
        self.sync_preferences(presets);
    }

    /// Sets how long each photo of a slideshow is shown; no time at all changes nothing.
    pub fn set_slideshow_interval(&mut self, interval: Duration, presets: &Presets)
        requires
            old(self)@.wf(),
        ensures
            final(self)@ == if interval.nanos == 0 {
                old(self)@
            } else {
                old(self)@.with_form(
                    FormView { photo_interval: interval, ..old(self)@.form },
                ).synced(presets@)
            },
            final(self)@.wf(),
    {
        if interval.nanos == 0 {
            return;
        }
        self.form.photo_interval = interval;
        self.sync_preferences(presets);
    }

    /// Sets the frame rate of slideshows; it is one at least.
    pub fn set_slideshow_fps(&mut self, fps: i32, presets: &Presets)
        requires
            old(self)@.wf(),
        ensures
            final(self)@ == old(self)@.with_form(
                FormView {
                    slideshow_fps: if fps < 1 {
                        1
                    } else {
                        fps as u32
                    },
                    ..old(self)@.form
                },
            ).synced(presets@),
            final(self)@.wf(),
    {
        self.form.slideshow_fps = if fps < 1 {
            1
        } else {
            fps as u32
        };
        self.sync_preferences(presets);
    }

    /// Chooses the size of slideshows by its place.
    pub fn set_slideshow_resolution(&mut self, index: usize, presets: &Presets)
        requires
            old(self)@.wf(),
        ensures
            final(self)@ == if index < 2 {
                old(self)@.with_form(
                    FormView {
                        slideshow_resolution: if index == 0 {
                            "1080p"@
                        } else {
                            "4K"@
                        },
                        ..old(self)@.form
                    },
                ).synced(presets@)
            } else {
                old(self)@
            },
            final(self)@.wf(),
    {
        if index >= 2 {
            return;
        }
        self.form.slideshow_resolution = if index == 0 {
            "1080p".to_owned()
        } else {
            "4K".to_owned()
        };
        self.sync_preferences(presets);
    }

    pub fn set_slideshow_collage(&mut self, enabled: bool, presets: &Presets)
        requires
            old(self)@.wf(),
        ensures
            final(self)@ == old(self)@.with_form(
                FormView { slideshow_collage: enabled, ..old(self)@.form },
            ).synced(presets@),
            final(self)@.wf(),
    {
        self.form.slideshow_collage = enabled;
        self.sync_preferences(presets);
    }

    /// Adds audio tracks that are not listed yet, and selects the last one.
    pub fn add_slideshow_audio(&mut self, paths: &Vec<String>, presets: &Presets)
        requires
            old(self)@.wf(),
        ensures
            ({
                let list = with_new(old(self)@.form.slideshow_audio_paths, texts(paths@));
                final(self)@ == old(self)@.with_form(
                    FormView {
                        slideshow_audio_paths: list,
                        slideshow_audio_selected: last_place(list.len()),
                        ..old(self)@.form
                    },
                ).synced(presets@)
            }),
            final(self)@.wf(),
    {
        self.form.add_audio(paths);
        self.sync_preferences(presets);
    }

    /// Selects an audio track, where it is listed.
    pub fn select_slideshow_audio(&mut self, index: usize)
        ensures
            final(self)@ == if index < old(self)@.form.slideshow_audio_paths.len() {
                old(self)@.with_form(
                    FormView { slideshow_audio_selected: Some(index), ..old(self)@.form },
                )
            } else {
                old(self)@
            },
    {
        assert(self@.form.slideshow_audio_paths.len() == self.form.slideshow_audio_paths@.len());
        if index < self.form.slideshow_audio_paths.len() {
            self.form.slideshow_audio_selected = Some(index);
        }
    }

    /// Moves the selected audio track by some places.
    pub fn move_slideshow_audio(&mut self, delta: isize, presets: &Presets)
        requires
            old(self)@.wf(),
        ensures
            ({
                let form = old(self)@.form;
                let moves = form.slideshow_audio_selected matches Some(i) && i
                    < form.slideshow_audio_paths.len() && 0 <= i + delta
                    < form.slideshow_audio_paths.len();
                final(self)@ == if moves {
                    old(self)@.with_form(form.audio_moved(delta as int)).synced(presets@)
                } else {
                    old(self)@
                }
            }),
            final(self)@.wf(),
    {
        assert(self@.form.slideshow_audio_paths.len() == self.form.slideshow_audio_paths@.len());
        if let Some(i) = self.form.slideshow_audio_selected {
            let n: usize = self.form.slideshow_audio_paths.len();
            let next: i128 = i as i128 + delta as i128;
            if i < n && next >= 0 && next < n as i128 {
                self.form.move_audio(delta);
                self.sync_preferences(presets);
            }
        }
    }

    /// Removes the selected audio track.
    pub fn remove_slideshow_audio(&mut self, presets: &Presets)
        requires
            old(self)@.wf(),
        ensures
            final(self)@ == match old(self)@.form.slideshow_audio_selected {
                Some(_) => old(self)@.with_form(old(self)@.form.audio_removed()).synced(presets@),
                None => old(self)@,
            },
            final(self)@.wf(),
    {
        if self.form.slideshow_audio_selected.is_some() {
            self.form.remove_audio();
            self.sync_preferences(presets);
        }
    }

    pub fn clear_slideshow_audio(&mut self, presets: &Presets)
        requires
            old(self)@.wf(),
        ensures
            final(self)@ == old(self)@.with_form(
                FormView {
                    slideshow_audio_paths: Seq::empty(),
                    slideshow_audio_selected: None,
                    ..old(self)@.form
                },
            ).synced(presets@),
            final(self)@.wf(),
    {
        self.form.clear_audio();
        self.sync_preferences(presets);
    }

    /// Keeps the system awake while a conversion runs, or no longer.
    pub fn set_prevent_sleep(&mut self, enabled: bool, presets: &Presets)
        requires
            old(self)@.wf(),
        ensures
            final(self)@ == (ControllerView { prevent_sleep: enabled, ..old(self)@ }).synced(
                presets@,
            ),
            final(self)@.wf(),
    {
        self.prevent_sleep = enabled;
        self.sync_preferences(presets);
    }

    /// Chooses the speed of the encoder by its place.
    pub fn set_speed(&mut self, index: usize, presets: &Presets)
        requires
            old(self)@.wf(),
        ensures
            ({
                let speeds = speed_presets(old(self)@.form.encoder);
                final(self)@ == if index < speeds.len() {
                    old(self)@.with_form(
                        FormView { speed_preset: speeds[index as int], ..old(self)@.form },
                    ).synced(presets@)
                } else {
                    old(self)@
                }
            }),
            final(self)@.wf(),
    {
        let speeds = speed_options(self.form.encoder);
        assert(texts(speeds@).len() == speeds@.len());
        if index >= speeds.len() {
            return;
        }
        assert(texts(speeds@)[index as int] == speeds@[index as int]@);
        self.form.speed_preset = speeds[index].clone();
        self.sync_preferences(presets);
    }
}

} // verus!
