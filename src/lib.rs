pub mod types;
pub mod text;
pub mod language;
pub mod patch;
pub mod diff;
pub mod status;
pub mod combine;
pub mod error;
pub mod review;

pub use combine::combine_diffs;
pub use diff::{
    axis_status, create_new_file_diff, finish_file_diff, needs_status_check, new_file_diff,
    parse_diff, parse_stream, synthesis_status, HunkBuilder, NewFileProbe,
};
pub use error::AppError;
pub use language::{detect_language, language_for_extension};
pub use patch::{DeltaKind, PatchDelta, PatchHunk, PatchLine};
pub use review::{review_file_name, review_name_for};
pub use status::{reconcile, sort_entries, StatusEntry, StatusFlags};
pub use types::{DiffHunk, DiffLine, FileDiff, FileEntry, FileStatus, LineType, RepositoryStatus};
