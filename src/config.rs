//! The listing configuration and the ordering it selects.
use vstd::prelude::*;

verus! {

/// Every option of a listing run, including the locations to list. Built once
/// by the command-line layer and only read afterwards.
pub struct Options {
    /// The locations to list.
    pub dirs: Vec<String>,
    /// Show entries whose names start with a dot, and the implied `.` and `..`.
    pub show_hidden: bool,
    /// Show entries whose names start with a dot, without `.` and `..`.
    pub ignore_implied: bool,
    /// List directories themselves rather than their contents.
    pub dirs_themselves: bool,
    /// Long listing format.
    pub long_listing: bool,
    /// Follow symbolic links for metadata.
    pub dereference: bool,
    /// Reverse the final order.
    pub reverse: bool,
    /// Descend into subdirectories.
    pub recurse: bool,
    /// Sort by modification time, newest first.
    pub sort_by_mtime: bool,
    /// Use the status-change time for sorting by time and for dates.
    pub sort_by_ctime: bool,
    /// Sort by size, largest first.
    pub sort_by_size: bool,
    /// Order entries by their path.
    pub no_sort: bool,
    /// Leave out entries whose names end with `~`.
    pub ignore_backups: bool,
    /// Show owners and groups as numbers (implies the long format).
    pub numeric_ids: bool,
    /// One entry per line.
    pub one_file_per_line: bool,
    /// Sizes with a magnitude suffix.
    pub human_readable: bool,
    /// Append a type indicator to names.
    pub classify: bool,
    /// Show inode numbers.
    pub inode: bool,
    /// Colour names by type.
    pub color: bool,
}

/// The key that a listing is ordered by.
#[derive(PartialEq, Eq, Structural, Clone, Copy, Debug)]
pub enum SortKey {
    /// Modification time, newest first.
    Mtime,
    /// Status-change time, newest first.
    Ctime,
    /// Size, smallest first before the final reversal.
    Size,
    /// Path, compared component by component.
    Name,
    /// Enumeration order, untouched.
    Unsorted,
}

impl Options {
    /// The ordering selected by the flags: modification time wins over size,
    /// size over path order, path order over the enumeration order.
    pub open spec fn sort_key(&self) -> SortKey {
        if self.sort_by_mtime {
            if self.sort_by_ctime {
                SortKey::Ctime
            } else {
                SortKey::Mtime
            }
        } else if self.sort_by_size {
            SortKey::Size
        } else if self.no_sort {
            SortKey::Name
        } else {
            SortKey::Unsorted
        }
    }

    /// Whether the ordered sequence is reversed at the end: the reverse flag,
    /// inverted for the size ordering.
    pub open spec fn reverses(&self) -> bool {
        if self.sort_key() == SortKey::Size {
            !self.reverse
        } else {
            self.reverse
        }
    }

    /// The long format is used for long listings and for numeric ids.
    pub open spec fn long_format(&self) -> bool {
        self.long_listing || self.numeric_ids
    }

    pub fn key(&self) -> (k: SortKey)
        ensures
            k == self.sort_key(),
    {
        if self.sort_by_mtime {
            if self.sort_by_ctime {
                SortKey::Ctime
            } else {
                SortKey::Mtime
            }
        } else if self.sort_by_size {
            SortKey::Size
        } else if self.no_sort {
            SortKey::Name
        } else {
            SortKey::Unsorted
        }
    }
}

} // verus!
