//! Facts about a loaded CSV file.
use vstd::prelude::*;
use crate::time::{in_utc_range, now_millis};

verus! {

/// Size and shape of a loaded file.
#[derive(Debug, PartialEq)]
pub struct CsvMetadata {
    pub file_path: String,
    pub file_name: String,
    pub total_rows: usize,
    /// Columns in the file.
    pub total_columns: usize,
    /// Columns that are read.
    pub columns_used: usize,
    pub file_size_bytes: u64,
    /// Memory that the parsed rows take.
    pub memory_size_bytes: usize,
    /// When the file was parsed, in milliseconds since the epoch (UTC).
    pub parsed_at: i64,
}

impl CsvMetadata {
    /// Metadata of a file of `total_rows` rows, each taking `record_size`
    /// bytes once parsed. The parse time is the current time.
    pub fn new(
        file_path: String,
        file_name: String,
        total_rows: usize,
        file_size_bytes: u64,
        record_size: usize,
    ) -> (r: Self)
        requires
            total_rows * record_size <= usize::MAX,
        ensures
            r.file_path == file_path,
            r.file_name == file_name,
            r.total_rows == total_rows,
            r.total_columns == 32,
            r.columns_used == 16,
            r.file_size_bytes == file_size_bytes,
            r.memory_size_bytes == total_rows * record_size,
            in_utc_range(r.parsed_at as int),
    {
        let memory_size = total_rows * record_size;
        CsvMetadata {
            file_path,
            file_name,
            total_rows,
            total_columns: 32,
            columns_used: 16,
            file_size_bytes,
            memory_size_bytes: memory_size,
            parsed_at: now_millis(),
        }
    }

    /// Whether the parsed rows fit in `max_memory_mb` mebibytes.
    pub fn is_within_limits(&self, max_memory_mb: usize) -> (r: bool)
        requires
            max_memory_mb * 1024 * 1024 <= usize::MAX,
        ensures
            r == (self.memory_size_bytes <= max_memory_mb * 1024 * 1024),
    {
        let limit_bytes = max_memory_mb * 1024 * 1024;
        self.memory_size_bytes <= limit_bytes
    }
}

impl Clone for CsvMetadata {
    fn clone(&self) -> (r: Self)
        ensures
            r == *self,
    {
        CsvMetadata {
            file_path: self.file_path.clone(),
            file_name: self.file_name.clone(),
            total_rows: self.total_rows,
            total_columns: self.total_columns,
            columns_used: self.columns_used,
            file_size_bytes: self.file_size_bytes,
            memory_size_bytes: self.memory_size_bytes,
            parsed_at: self.parsed_at,
        }
    }
}

} // verus!
