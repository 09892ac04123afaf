pub mod debug_info;
pub mod format_grouped_lines;
pub mod runtime_profiler;
pub mod runtime_reporter;
pub mod runtime_storage;
