//! Resolved entries: a path with the metadata and the facts about it that the
//! renderers read.
use vstd::prelude::*;

verus! {

/// The largest timestamp magnitude, in seconds, that dates are rendered for.
pub const MAX_TIMESTAMP: i64 = 36_028_797_018_963_968;

/// What kind of filesystem object an entry is.
#[derive(PartialEq, Eq, Structural, Clone, Copy, Debug)]
pub enum FileKind {
    Directory,
    Symlink,
    Regular,
    Socket,
    Fifo,
    BlockDevice,
    CharDevice,
    Other,
}

/// The metadata of one filesystem object.
#[derive(PartialEq, Eq, Structural, Clone, Copy, Debug)]
pub struct FileMeta {
    pub kind: FileKind,
    /// Permission and special bits.
    pub mode: u32,
    pub uid: u32,
    pub gid: u32,
    /// Number of hard links.
    pub nlink: u64,
    /// Size in bytes.
    pub size: u64,
    /// Modification time, whole seconds since the epoch.
    pub mtime: i64,
    /// Nanoseconds past `mtime`.
    pub mtime_nsec: i64,
    /// Status-change time, whole seconds since the epoch.
    pub ctime: i64,
    pub ino: u64,
}

impl FileMeta {
    /// The modification time in nanoseconds since the epoch.
    pub open spec fn mtime_ns(&self) -> int {
        1_000_000_000 * self.mtime + self.mtime_nsec
    }

    /// Nanoseconds stay below one second, and both times lie within the
    /// range that the local calendar conversion accepts.
    pub open spec fn wf(&self) -> bool {
        &&& 0 <= self.mtime_nsec < 1_000_000_000
        &&& -MAX_TIMESTAMP <= self.mtime <= MAX_TIMESTAMP
        &&& -MAX_TIMESTAMP <= self.ctime <= MAX_TIMESTAMP
    }
}

/// A path together with everything that rendering it needs to know.
#[derive(Clone, Debug)]
pub struct Entry {
    /// The path as it was named or enumerated.
    pub path: String,
    /// Its metadata under the run's dereference policy, or `None` when it
    /// could not be read.
    pub meta: Option<FileMeta>,
    /// The reason the metadata could not be read.
    pub error: String,
    /// Whether the path resolves when links are followed.
    pub exists: bool,
    /// For a symbolic link, the text of its target, when readable.
    pub link_target: Option<String>,
    /// Whether that target text names an existing object.
    pub link_target_exists: bool,
    /// The owner's name, when the identity lookup found one.
    pub owner_name: Option<String>,
    /// The group's name, when the identity lookup found one.
    pub group_name: Option<String>,
}

impl Entry {
    pub open spec fn wf(&self) -> bool {
        match self.meta {
            Some(m) => m.wf(),
            None => true,
        }
    }
}

/// The metadata a run uses for one path: when dereferencing, the followed
/// metadata, falling back to the link's own when the target is unreachable;
/// otherwise the link's own.
pub open spec fn chosen_metadata<E>(
    dereference: bool,
    followed: Result<FileMeta, E>,
    own: Result<FileMeta, E>,
) -> Result<FileMeta, E> {
    if dereference {
        match followed {
            Ok(m) => Ok(m),
            Err(_) => own,
        }
    } else {
        own
    }
}

/// Picks the metadata of a path from the two reads of it, by the dereference
/// policy: a broken link still yields its own metadata.
pub fn get_metadata(
    dereference: bool,
    followed: Result<FileMeta, String>,
    own: Result<FileMeta, String>,
) -> (r: Result<FileMeta, String>)
    ensures
        r == chosen_metadata(dereference, followed, own),
{
    if dereference {
        match followed {
            Ok(m) => Ok(m),
            Err(_) => own,
        }
    } else {
        own
    }
}

} // verus!
