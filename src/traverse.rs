//! Decisions of the traversal driver: which arguments are entered as
//! directories, which directory entries are listed and under what paths,
//! and which entries a recursive listing descends into.
use vstd::prelude::*;
use crate::config::Options;
use crate::entry::{Entry, FileKind};
use crate::names::{displayed, should_display};
use crate::text::{append_chars, chars_of, string_of};

verus! {

/// What the driver knows about one command-line location.
pub struct Target {
    pub path: String,
    /// The location is a directory, links followed.
    pub is_dir: bool,
    /// The location itself is a symbolic link.
    pub is_symlink: bool,
}

/// Whether a location is entered as a directory: it is one and directories
/// are not listed as themselves, except that a long listing without
/// dereferencing shows a link to a directory as a file unless its path ends
/// with a separator.
pub open spec fn entered(t: Target, o: Options) -> bool {
    &&& t.is_dir
    &&& !o.dirs_themselves
    &&& !(o.long_listing && !o.dereference && t.is_symlink && !(t.path@.len() > 0
        && t.path@.last() == '/'))
}

/// Decides whether `target` is entered as a directory.
pub fn enters(target: &Target, options: &Options) -> (r: bool)
    ensures
        r == entered(*target, *options),
{
    if target.is_dir && !options.dirs_themselves {
        if options.long_listing && !options.dereference && target.is_symlink {
            let p = chars_of(target.path.as_str());
            p.len() > 0 && p[p.len() - 1] == '/'
        } else {
            true
        }
    } else {
        false
    }
}

/// The paths of the targets that are (`dirs`) or are not entered.
pub open spec fn split_paths(ts: Seq<Target>, o: Options, dirs: bool) -> Seq<Seq<char>>
    decreases ts.len(),
{
    if ts.len() == 0 {
        Seq::empty()
    } else {
        let prev = split_paths(ts.drop_last(), o, dirs);
        if entered(ts.last(), o) == dirs {
            prev.push(ts.last().path@)
        } else {
            prev
        }
    }
}

pub open spec fn string_views(v: Seq<String>) -> Seq<Seq<char>> {
    v.map_values(|s: String| s@)
}

/// Splits the locations into those displayed as files and those entered as
/// directories, each in the given order.
pub fn split_targets(targets: &Vec<Target>, options: &Options) -> (r: (Vec<String>, Vec<String>))
    ensures
        string_views(r.0@) == split_paths(targets@, *options, false),
        string_views(r.1@) == split_paths(targets@, *options, true),
{
    let mut files: Vec<String> = Vec::new();
    let mut dirs: Vec<String> = Vec::new();
    let mut i: usize = 0;
    while i < targets.len()
        invariant
            i <= targets@.len(),
            string_views(files@) == split_paths(targets@.take(i as int), *options, false),
            string_views(dirs@) == split_paths(targets@.take(i as int), *options, true),
        decreases targets.len() - i,
    {
        assert(targets@.take(i + 1).drop_last() == targets@.take(i as int));
        assert(targets@.take(i + 1).last() == targets@[i as int]);
        let p = string_of(&chars_of(targets[i].path.as_str()));
        if enters(&targets[i], options) {
            dirs.push(p);
            assert(string_views(dirs@) =~= string_views(dirs@.drop_last()).push(p@));
        } else {
            files.push(p);
            assert(string_views(files@) =~= string_views(files@.drop_last()).push(p@));
        }
        i += 1;
    }
    assert(targets@.take(targets@.len() as int) == targets@);
    (files, dirs)
}

/// `name` inside the directory `dir`, with one separator between them.
pub open spec fn joined(dir: Seq<char>, name: Seq<char>) -> Seq<char> {
    if dir.len() == 0 {
        name
    } else if dir.last() == '/' {
        dir + name
    } else {
        dir + seq!['/'] + name
    }
}

/// Joins a directory and an entry name.
pub fn join_path(dir: &str, name: &str) -> (r: String)
    ensures
        r@ == joined(dir@, name@),
{
    let mut d = chars_of(dir);
    let n = chars_of(name);
    if d.len() == 0 {
        return string_of(&n);
    }
    if d[d.len() - 1] != '/' {
        d.push('/');
    }
    append_chars(&mut d, &n);
    string_of(&d)
}

/// The paths of the directory entries `names` that are displayed, joined to
/// `dir`, in the given order.
pub open spec fn listed_paths(dir: Seq<char>, names: Seq<Seq<char>>, o: Options) -> Seq<Seq<char>>
    decreases names.len(),
{
    if names.len() == 0 {
        Seq::empty()
    } else {
        let prev = listed_paths(dir, names.drop_last(), o);
        if displayed(names.last(), o) {
            prev.push(joined(dir, names.last()))
        } else {
            prev
        }
    }
}

/// The paths to list for a directory whose entries are called `names`: the
/// entry filter applied, each kept name joined to `dir`.
pub fn directory_paths(dir: &str, names: &Vec<String>, options: &Options) -> (r: Vec<String>)
    ensures
        string_views(r@) == listed_paths(dir@, string_views(names@), *options),
{
    let mut out: Vec<String> = Vec::new();
    let mut i: usize = 0;
    while i < names.len()
        invariant
            i <= names@.len(),
            string_views(out@) == listed_paths(dir@, string_views(names@).take(i as int), *options),
        decreases names.len() - i,
    {
        assert(string_views(names@).take(i + 1).drop_last() == string_views(names@).take(i as int));
        assert(string_views(names@).take(i + 1).last() == names@[i as int]@);
        if should_display(names[i].as_str(), options) {
            let p = join_path(dir, names[i].as_str());
            out.push(p);
            assert(string_views(out@) =~= string_views(out@.drop_last()).push(p@));
        }
        i += 1;
    }
    assert(string_views(names@).take(names@.len() as int) == string_views(names@));
    out
}

/// The implied entries shown in front of a directory's contents when
/// hidden files are shown: the directory itself and its parent.
pub open spec fn implied_paths(dir: Seq<char>, o: Options) -> Seq<Seq<char>> {
    if o.show_hidden {
        seq![joined(dir, seq!['.']), joined(dir, seq!['.', '.'])]
    } else {
        Seq::empty()
    }
}

/// The paths of `.` and `..` inside `dir` when hidden files are shown, else
/// none.
pub fn implied_entries(dir: &str, options: &Options) -> (r: Vec<String>)
    ensures
        string_views(r@) == implied_paths(dir@, *options),
{
    let mut out: Vec<String> = Vec::new();
    if options.show_hidden {
        proof {
            reveal_strlit(".");
            reveal_strlit("..");
        }
        assert("."@ =~= seq!['.']);
        assert(".."@ =~= seq!['.', '.']);
        let a = join_path(dir, ".");
        let b = join_path(dir, "..");
        out.push(a);
        out.push(b);
        assert(string_views(out@) =~= implied_paths(dir@, *options));
    } else {
        assert(string_views(out@) =~= implied_paths(dir@, *options));
    }
    out
}

/// The paths of the entries that are directories under the run's
/// dereference policy, in order.
pub open spec fn subdirectory_paths(es: Seq<Entry>) -> Seq<Seq<char>>
    decreases es.len(),
{
    if es.len() == 0 {
        Seq::empty()
    } else {
        let prev = subdirectory_paths(es.drop_last());
        match es.last().meta {
            Some(m) => if m.kind == FileKind::Directory {
                prev.push(es.last().path@)
            } else {
                prev
            },
            None => prev,
        }
    }
}

/// The entries a recursive listing descends into, in listing order.
pub fn subdirectories(entries: &Vec<Entry>) -> (r: Vec<String>)
    ensures
        string_views(r@) == subdirectory_paths(entries@),
{
    let mut out: Vec<String> = Vec::new();
    let mut i: usize = 0;
    while i < entries.len()
        invariant
            i <= entries@.len(),
            string_views(out@) == subdirectory_paths(entries@.take(i as int)),
        decreases entries.len() - i,
    {
        assert(entries@.take(i + 1).drop_last() == entries@.take(i as int));
        assert(entries@.take(i + 1).last() == entries@[i as int]);
        if let Some(m) = &entries[i].meta {
            if m.kind == FileKind::Directory {
                let p = string_of(&chars_of(entries[i].path.as_str()));
                out.push(p);
                assert(string_views(out@) =~= string_views(out@.drop_last()).push(p@));
            }
        }
        i += 1;
    }
    assert(entries@.take(entries@.len() as int) == entries@);
    out
}

/// The header printed before a directory's listing: an empty line, then the
/// path and a colon.
pub open spec fn header_text(path: Seq<char>) -> Seq<char> {
    seq!['\n'] + path + seq![':']
}

/// The header line of a directory listing.
pub fn dir_header(path: &str) -> (r: String)
    ensures
        r@ == header_text(path@),
{
    let mut v: Vec<char> = Vec::new();
    v.push('\n');
    let p = chars_of(path);
    append_chars(&mut v, &p);
    v.push(':');
    assert(v@ =~= header_text(path@));
    string_of(&v)
}

/// The locations that `options` asks to list: all of them, in order.
pub fn locations(options: &Options) -> (r: Vec<String>)
    ensures
        string_views(r@) == string_views(options.dirs@),
{
    let mut out: Vec<String> = Vec::new();
    let mut i: usize = 0;
    while i < options.dirs.len()
        invariant
            i <= options.dirs@.len(),
            string_views(out@) == string_views(options.dirs@).take(i as int),
        decreases options.dirs.len() - i,
    {
        let p = string_of(&chars_of(options.dirs[i].as_str()));
        let ghost before = out@;
        out.push(p);
        assert(string_views(options.dirs@)[i as int] == options.dirs@[i as int]@);
        assert(string_views(out@) =~= string_views(before).push(p@));
        assert(string_views(out@) =~= string_views(options.dirs@).take(i + 1));
        i += 1;
    }
    assert(string_views(options.dirs@).take(options.dirs@.len() as int) == string_views(options.dirs@));
    out
}

} // verus!
