pub mod text;
pub mod split;
pub mod strings;
pub mod version;
pub mod kernel;
pub mod kernel_laws;
pub mod paths;
mod outside;
pub mod browser;
pub mod scan_result;
pub mod security;
pub mod cleaner;
pub mod rules;
pub mod settings;
pub mod icons;
pub mod i18n;
pub mod desktop;
pub mod journal;
pub mod store;
pub mod cleanup_log;
pub mod scan_rules;
pub mod analyzer;
pub mod analyzer_laws;
pub mod custom_form;
pub mod dashboard;
pub mod storage_walk;
pub mod scan_plan;
pub mod release_notes;
pub mod navigation;
pub mod selection;
pub mod storage_view;
pub mod schedule_text;
pub mod diagnostics;
pub mod browser_laws;
pub mod walk_laws;
