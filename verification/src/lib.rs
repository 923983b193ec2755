//! The decision logic of the VideoFerry desktop video converter.

pub mod board;
pub mod choices;
pub mod clock;
pub mod commands;
pub mod control;
pub mod controller;
pub mod controller_laws;
pub mod counts;
pub mod disk;
pub mod display_laws;
pub mod drafts;
pub mod editing;
pub mod editing_laws;
pub mod encoding;
pub mod engine;
pub mod failures;
pub mod finish;
pub mod form;
pub mod form_laws;
pub mod history;
pub mod history_laws;
pub mod indicator;
pub mod job_laws;
pub mod jobs;
pub mod json;
pub mod media_files;
pub mod model;
pub mod naming_laws;
pub mod natural;
pub mod order_laws;
pub mod output_naming;
pub mod panel_laws;
pub mod panels;
pub mod paths;
pub mod presets;
pub mod progress;
pub mod publish;
pub mod publish_laws;
pub mod queue;
pub mod queue_laws;
pub mod renaming;
pub mod rescan;
pub mod review;
pub mod review_laws;
pub mod run;
pub mod run_laws;
pub mod scan_laws;
pub mod selection;
pub mod settings_row_laws;
pub mod settings_rows;
pub mod snapshot;
pub mod starts;
pub mod store;
pub mod stored;
pub mod stored_laws;
pub mod stored_queue;
pub mod stream_policy;
pub mod summary;
pub mod summary_laws;
pub mod target_laws;
pub mod targets;
pub mod task_edit;
pub mod task_file_laws;
pub mod task_files;
pub mod task_rows;
pub mod task_sort;
pub mod text;
pub mod thumbnails;
pub mod time;
pub mod watch;
pub mod watch_laws;
