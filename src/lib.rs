//! Link monitoring core: classifies targets, fingerprints captures, keeps a
//! bounded per-target history, schedules browser visits and judges the newest
//! capture of a target against the consensus of its earlier ones.

mod classify;
mod enums;
mod fingerprint;
mod history;
mod config;
mod consensus;
mod platform;
mod scheduler;
mod text;

pub use classify::{check_link_type, lemma_classification_is_pure, link_type_error, title_check, Target};
pub use enums::{CustomError, InvalidReason, LinkType, ValidReason, Validity};
pub use text::{contains, eq_ignore_ascii_case, starts_with};
pub use fingerprint::{
    capture_error, hash_img, hash_string, normalize_page_source, State, Timestamp,
    BLANK_SCREENSHOT_HASH, VOLATILE_TOKEN_PATTERN,
};
pub use history::{lemma_retention, DataStore, PageData, HISTORY_RETENTION};
pub use config::{parse_bool, Args, parse_unsigned, Config, ConfigError, Extensions, GeckoConfig, SettingKey};
pub use consensus::{
    diff_report, judge_sample, lemma_all_matching_is_valid, lemma_digest_only_is_hash_only, lemma_error_tag_wins,
    lemma_tolerance_bounds_included, mode, validate, validate_all, within, Classification, DiffReport, Mode, Status, Tally, Verdict,
};
pub use scheduler::{lemma_zero_dwell_retires_at_once, Action, ActivePages, Scheduler};
pub use platform::{get_arch, get_os, get_os_arch_for_geckodriver, AppState, Arch, OS};
