//! The render engine: the text of each field of a listing line, and the
//! display name of an entry with its colour and type indicator.
use vstd::prelude::*;
use crate::colors::{ColorTable, ColorView, colored, color_chars};
use crate::calendar::{LocalTime, civil_of, local_date};
use crate::config::Options;
use crate::entry::{Entry, FileKind, FileMeta, MAX_TIMESTAMP};
use crate::names::{extension, file_extension, file_name_chars, file_name_text};
use crate::perms::{has, perm_text, type_glyph, display_file_type, display_permissions_unix};
use crate::text::{
    append_chars, append_str, chars_of, dec_text, decimal, pad_chars, right_aligned, string_of,
    zero_pad, zero_padded,
};

verus! {

/// The width in terminal columns that `unicode-width` gives a text.
pub uninterp spec fn display_width(s: Seq<char>) -> usize;

/// Relies on `UnicodeWidthStr::width` of unicode-width: the number of
/// terminal columns the text takes, zero for the empty text.
#[verifier::external_body]
fn text_width(s: &str) -> (r: usize)
    ensures
        r == display_width(s@),
        s@.len() == 0 ==> r == 0,
{
    unicode_width::UnicodeWidthStr::width(s)
}

/// Relies on `time::at` of the time crate: the `tm_utcoff` of the local
/// time it gives, which it copies from `localtime_r`'s `tm_gmtoff`, the
/// seconds east of UTC in force at `secs` (local time is UTC shifted by it).
/// It depends on the machine's time zone.
#[verifier::external_body]
fn utc_offset(secs: i64) -> (off: i32)
    requires
        -MAX_TIMESTAMP <= secs <= MAX_TIMESTAMP,
{
    time::at(time::Timespec::new(secs, 0)).tm_utcoff
}

/// `i` in decimal, with a leading `-` when negative.
pub open spec fn signed_text(i: int) -> Seq<char> {
    if i < 0 {
        seq!['-'] + dec_text((-i) as nat)
    } else {
        dec_text(i as nat)
    }
}

/// The date as `YYYY-MM-DD HH:MM`.
pub open spec fn date_text(t: LocalTime) -> Seq<char> {
    signed_text(t.year + 1900) + seq!['-'] + zero_padded((t.month + 1) as nat, 2) + seq!['-']
        + zero_padded(t.day as nat, 2) + seq![' '] + zero_padded(t.hour as nat, 2) + seq![':']
        + zero_padded(t.minute as nat, 2)
}

fn signed_chars(i: i64) -> (r: Vec<char>)
    requires
        i > i64::MIN,
    ensures
        r@ == signed_text(i as int),
{
    if i < 0 {
        let mut v: Vec<char> = Vec::new();
        v.push('-');
        let d = decimal((-i) as u128);
        append_chars(&mut v, &d);
        assert(v@ =~= seq!['-'] + dec_text((-i) as nat));
        v
    } else {
        decimal(i as u128)
    }
}

/// Formats a local time as `YYYY-MM-DD HH:MM`.
pub fn format_date(t: &LocalTime) -> (r: Vec<char>)
    requires
        t.wf(),
    ensures
        r@ == date_text(*t),
{
    let mut v = signed_chars(t.year as i64 + 1900);
    v.push('-');
    let m = zero_pad((t.month + 1) as u64, 2);
    append_chars(&mut v, &m);
    v.push('-');
    let d = zero_pad(t.day as u64, 2);
    append_chars(&mut v, &d);
    v.push(' ');
    let h = zero_pad(t.hour as u64, 2);
    append_chars(&mut v, &h);
    v.push(':');
    let mi = zero_pad(t.minute as u64, 2);
    append_chars(&mut v, &mi);
    assert(v@ =~= date_text(*t));
    v
}

/// The timestamp a listing shows: the status-change time when ctime is
/// selected, else the modification time.
pub open spec fn shown_time(m: FileMeta, o: Options) -> i64 {
    if o.sort_by_ctime {
        m.ctime
    } else {
        m.mtime
    }
}

/// The date text of an entry's shown timestamp, in the machine's local time:
/// the calendar time of the timestamp shifted by the local offset from UTC.
pub fn display_date(meta: &FileMeta, options: &Options) -> (r: String)
    requires
        meta.wf(),
    ensures
        exists|off: i32| r@ == date_text(#[trigger] civil_of(shown_time(*meta, *options) + off)),
{
    let secs = if options.sort_by_ctime {
        meta.ctime
    } else {
        meta.mtime
    };
    let off = utc_offset(secs);
    let t = local_date(secs, off);
    assert(t == civil_of(shown_time(*meta, *options) + off));
    string_of(&format_date(&t))
}

/// `1024` to the power `k`.
pub open spec fn pow1024(k: nat) -> nat
    decreases k,
{
    if k == 0 {
        1
    } else {
        1024 * pow1024((k - 1) as nat)
    }
}

/// The prefix step of a size: the largest `k` from `start` up to 6 with
/// `1024^k <= n`.
pub open spec fn magnitude(n: nat, start: nat) -> nat
    decreases 6 - start,
{
    if start < 6 && n >= pow1024(start + 1) {
        magnitude(n, start + 1)
    } else {
        start
    }
}

/// The suffix letter of prefix step `k`.
pub open spec fn prefix_letter(k: nat) -> char {
    if k == 1 {
        'K'
    } else if k == 2 {
        'M'
    } else if k == 3 {
        'G'
    } else if k == 4 {
        'T'
    } else if k == 5 {
        'P'
    } else {
        'E'
    }
}

/// A size in binary prefix steps: below 1024 the plain number; otherwise the
/// size divided by `1024^k` for the largest step `k` that keeps it at least
/// one, rounded half up to two decimals, and the step's letter.
pub open spec fn human_text(n: nat) -> Seq<char> {
    let k = magnitude(n, 0);
    if k == 0 {
        dec_text(n)
    } else {
        let p = pow1024(k);
        let h = (n * 100 + p / 2) / p;
        dec_text(h / 100) + seq!['.'] + zero_padded(h % 100, 2) + seq![prefix_letter(k)]
    }
}

/// The size field: the byte count, or its binary-prefixed form.
pub open spec fn size_text(m: FileMeta, o: Options) -> Seq<char> {
    if o.human_readable {
        human_text(m.size as nat)
    } else {
        dec_text(m.size as nat)
    }
}

/// The human-readable text of a byte count.
pub fn human_size(n: u64) -> (r: Vec<char>)
    ensures
        r@ == human_text(n as nat),
{
    let mut k: u64 = 0;
    let mut p: u128 = 1;
    while k < 6 && (n as u128) >= p * 1024
        invariant
            k <= 6,
            p == pow1024(k as nat),
            k == 0 ==> p == 1,
            k == 1 ==> p == 0x400,
            k == 2 ==> p == 0x10_0000,
            k == 3 ==> p == 0x4000_0000,
            k == 4 ==> p == 0x100_0000_0000,
            k == 5 ==> p == 0x4_0000_0000_0000,
            k == 6 ==> p == 0x1000_0000_0000_0000,
            magnitude(n as nat, 0) == magnitude(n as nat, k as nat),
        decreases 6 - k,
    {
        p = p * 1024;
        k = k + 1;
        assert(pow1024(k as nat) == 1024 * pow1024((k - 1) as nat));
    }
    assert(magnitude(n as nat, k as nat) == k);
    if k == 0 {
        decimal(n as u128)
    } else {
        let h: u128 = ((n as u128) * 100 + p / 2) / p;
        let mut v = decimal(h / 100);
        v.push('.');
        let f = zero_pad((h % 100) as u64, 2);
        append_chars(&mut v, &f);
        let c = if k == 1 {
            'K'
        } else if k == 2 {
            'M'
        } else if k == 3 {
            'G'
        } else if k == 4 {
            'T'
        } else if k == 5 {
            'P'
        } else {
            'E'
        };
        v.push(c);
        assert(v@ =~= human_text(n as nat));
        v
    }
}

/// The size field of an entry.
pub fn display_file_size(meta: &FileMeta, options: &Options) -> (r: String)
    ensures
        r@ == size_text(*meta, *options),
{
    let v = size_chars(meta, options);
    string_of(&v)
}

fn size_chars(meta: &FileMeta, options: &Options) -> (r: Vec<char>)
    ensures
        r@ == size_text(*meta, *options),
{
    if options.human_readable {
        human_size(meta.size)
    } else {
        decimal(meta.size as u128)
    }
}

/// The hard-link count as text.
pub fn display_symlink_count(meta: &FileMeta) -> (r: String)
    ensures
        r@ == dec_text(meta.nlink as nat),
{
    string_of(&decimal(meta.nlink as u128))
}

/// The owner field: the numeric id in numeric mode, else the resolved name,
/// falling back to the numeric id.
pub open spec fn user_text(e: Entry, m: FileMeta, o: Options) -> Seq<char> {
    if o.numeric_ids {
        dec_text(m.uid as nat)
    } else {
        match e.owner_name {
            Some(n) => n@,
            None => dec_text(m.uid as nat),
        }
    }
}

/// The group field, like the owner field.
pub open spec fn group_text(e: Entry, m: FileMeta, o: Options) -> Seq<char> {
    if o.numeric_ids {
        dec_text(m.gid as nat)
    } else {
        match e.group_name {
            Some(n) => n@,
            None => dec_text(m.gid as nat),
        }
    }
}

fn id_or_name(id: u32, name: &Option<String>, numeric: bool) -> (r: Vec<char>)
    ensures
        r@ == if numeric {
            dec_text(id as nat)
        } else {
            match name {
                Some(n) => n@,
                None => dec_text(id as nat),
            }
        },
{
    if numeric {
        decimal(id as u128)
    } else {
        match name {
            Some(n) => chars_of(n.as_str()),
            None => decimal(id as u128),
        }
    }
}

/// The owner of an entry, by name unless ids are numeric.
pub fn display_uname(entry: &Entry, meta: &FileMeta, options: &Options) -> (r: String)
    ensures
        r@ == user_text(*entry, *meta, *options),
{
    string_of(&id_or_name(meta.uid, &entry.owner_name, options.numeric_ids))
}

/// The group of an entry, by name unless ids are numeric.
pub fn display_group(entry: &Entry, meta: &FileMeta, options: &Options) -> (r: String)
    ensures
        r@ == group_text(*entry, *meta, *options),
{
    string_of(&id_or_name(meta.gid, &entry.group_name, options.numeric_ids))
}

/// The inode column: the number with at least eight digits and a space,
/// when inode display is on.
pub open spec fn inode_text(m: FileMeta, o: Options) -> Seq<char> {
    if o.inode {
        zero_padded(m.ino as nat, 8) + seq![' ']
    } else {
        Seq::<char>::empty()
    }
}

/// The inode column of an entry.
pub fn get_inode(meta: &FileMeta, options: &Options) -> (r: Vec<char>)
    ensures
        r@ == inode_text(*meta, *options),
{
    if options.inode {
        let mut v = zero_pad(meta.ino, 8);
        v.push(' ');
        v
    } else {
        Vec::new()
    }
}

pub open spec fn any_exec() -> u32 {
    0o111
}

/// The colour tag of an entry. Regular files take the first that applies of
/// setuid, setgid, sticky and world-writable, sticky, world-writable,
/// executable, several hard links, their extension, and plain file.
pub open spec fn color_tag(e: Entry, m: FileMeta) -> Seq<char> {
    match m.kind {
        FileKind::Directory => seq!['d', 'i', 'r'],
        FileKind::Symlink => if e.exists {
            seq!['l', 'n']
        } else {
            seq!['o', 'r']
        },
        FileKind::Socket => seq!['s', 'o'],
        FileKind::Fifo => seq!['p', 'i'],
        FileKind::BlockDevice => seq!['b', 'd'],
        FileKind::CharDevice => seq!['c', 'd'],
        FileKind::Regular => if has(m.mode, 0o4000) {
            seq!['s', 'u']
        } else if has(m.mode, 0o2000) {
            seq!['s', 'g']
        } else if has(m.mode, 0o1000) && has(m.mode, 0o2) {
            seq!['t', 'w']
        } else if has(m.mode, 0o1000) {
            seq!['s', 't']
        } else if has(m.mode, 0o2) {
            seq!['o', 'w']
        } else if has(m.mode, any_exec()) {
            seq!['e', 'x']
        } else if m.nlink > 1 {
            seq!['m', 'h']
        } else {
            match extension(e.path@) {
                Some(x) => seq!['*', '.'] + x,
                None => seq!['f', 'i'],
            }
        },
        FileKind::Other => Seq::<char>::empty(),
    }
}

/// The type indicator of an entry: `/` directory, `@` link, `=` socket,
/// `|` fifo, `*` executable regular file.
pub open spec fn indicator(m: FileMeta) -> Option<char> {
    match m.kind {
        FileKind::Directory => Some('/'),
        FileKind::Symlink => Some('@'),
        FileKind::Socket => Some('='),
        FileKind::Fifo => Some('|'),
        FileKind::Regular => if has(m.mode, any_exec()) {
            Some('*')
        } else {
            None
        },
        _ => None,
    }
}

/// The plain name shown for an entry, with the inode in front when inode
/// display is on outside the long format (which has its own column).
pub open spec fn plain_name(e: Entry, m: FileMeta, strip: Option<Seq<char>>, o: Options) -> Seq<
    char,
> {
    let n = file_name_text(e.path@, strip);
    if o.inode && !o.long_format() {
        zero_padded(m.ino as nat, 8) + seq![' '] + n
    } else {
        n
    }
}

/// The text of the link target part of a long listing name.
pub open spec fn target_text(e: Entry, t: ColorView, o: Options) -> Seq<char> {
    match e.link_target {
        Some(target) => if o.color {
            colored(
                t,
                target@,
                if e.link_target_exists {
                    seq!['f', 'i']
                } else {
                    seq!['m', 'i']
                },
            )
        } else {
            target@
        },
        None => Seq::<char>::empty(),
    }
}

/// The full display name of an entry: the plain name, coloured by its tag
/// when colour is on, followed by its indicator when classifying, and, for a
/// link in a long listing, ` -> ` and its target.
pub open spec fn name_text(
    e: Entry,
    m: FileMeta,
    strip: Option<Seq<char>>,
    o: Options,
    t: ColorView,
) -> Seq<char> {
    let base = plain_name(e, m, strip, o);
    let c = if o.color {
        colored(t, base, color_tag(e, m))
    } else {
        base
    };
    let c2 = if o.classify && indicator(m) is Some {
        c.push(indicator(m)->0)
    } else {
        c
    };
    if o.long_listing && m.kind == FileKind::Symlink && e.link_target is Some {
        c2 + seq![' ', '-', '>', ' '] + target_text(e, t, o)
    } else {
        c2
    }
}

/// The visual width of the display name: that of the plain name, plus one
/// for an indicator (escape codes and link targets take no grid room).
pub open spec fn name_width(e: Entry, m: FileMeta, strip: Option<Seq<char>>, o: Options) -> usize {
    let w = display_width(plain_name(e, m, strip, o));
    if o.classify && indicator(m) is Some && w < usize::MAX {
        (w + 1) as usize
    } else {
        w
    }
}

/// A display-ready name and the columns it takes on a terminal.
pub struct Cell {
    pub contents: String,
    pub width: usize,
}

fn tag_chars(e: &Entry, m: &FileMeta) -> (r: Vec<char>)
    ensures
        r@ == color_tag(*e, *m),
{
    let mut v: Vec<char> = Vec::new();
    let mode = m.mode;
    match m.kind {
        FileKind::Directory => {
            v.push('d');
            v.push('i');
            v.push('r');
        },
        FileKind::Symlink => {
            if e.exists {
                v.push('l');
                v.push('n');
            } else {
                v.push('o');
                v.push('r');
            }
        },
        FileKind::Socket => {
            v.push('s');
            v.push('o');
        },
        FileKind::Fifo => {
            v.push('p');
            v.push('i');
        },
        FileKind::BlockDevice => {
            v.push('b');
            v.push('d');
        },
        FileKind::CharDevice => {
            v.push('c');
            v.push('d');
        },
        FileKind::Regular => {
            if mode & 0o4000 != 0 {
                v.push('s');
                v.push('u');
            } else if mode & 0o2000 != 0 {
                v.push('s');
                v.push('g');
            } else if mode & 0o1000 != 0 && mode & 0o2 != 0 {
                v.push('t');
                v.push('w');
            } else if mode & 0o1000 != 0 {
                v.push('s');
                v.push('t');
            } else if mode & 0o2 != 0 {
                v.push('o');
                v.push('w');
            } else if mode & 0o111 != 0 {
                v.push('e');
                v.push('x');
            } else if m.nlink > 1 {
                v.push('m');
                v.push('h');
            } else {
                let p = chars_of(e.path.as_str());
                match file_extension(&p) {
                    Some(x) => {
                        v.push('*');
                        v.push('.');
                        append_chars(&mut v, &x);
                    },
                    None => {
                        v.push('f');
                        v.push('i');
                    },
                }
            }
        },
        FileKind::Other => {},
    }
    assert(v@ =~= color_tag(*e, *m));
    v
}

fn indicator_of(m: &FileMeta) -> (r: Option<char>)
    ensures
        r == indicator(*m),
{
    match m.kind {
        FileKind::Directory => Some('/'),
        FileKind::Symlink => Some('@'),
        FileKind::Socket => Some('='),
        FileKind::Fifo => Some('|'),
        FileKind::Regular => if m.mode & 0o111 != 0 {
            Some('*')
        } else {
            None
        },
        _ => None,
    }
}

/// The display name of `entry` (whose metadata is `meta`) with its width.
pub fn display_file_name(
    entry: &Entry,
    strip: Option<&str>,
    meta: &FileMeta,
    options: &Options,
    colors: &ColorTable,
) -> (c: Cell)
    ensures
        c.contents@ == name_text(
            *entry,
            *meta,
            match strip {
                Some(p) => Some(p@),
                None => None,
            },
            *options,
            colors.view(),
        ),
        c.width == name_width(
            *entry,
            *meta,
            match strip {
                Some(p) => Some(p@),
                None => None,
            },
            *options,
        ),
{
    let ghost sv = match strip {
        Some(p) => Some(p@),
        None => None,
    };
    let path = chars_of(entry.path.as_str());
    let fname = match strip {
        Some(p) => {
            let pv = chars_of(p);
            file_name_chars(&path, Some(&pv))
        },
        None => file_name_chars(&path, None),
    };
    let mut base: Vec<char> = Vec::new();
    if options.inode && !(options.long_listing || options.numeric_ids) {
        base = zero_pad(meta.ino, 8);
        base.push(' ');
    }
    append_chars(&mut base, &fname);
    assert(base@ =~= plain_name(*entry, *meta, sv, *options));
    let base_str = string_of(&base);
    let mut width = text_width(base_str.as_str());
    let mut name = if options.color {
        let tag = tag_chars(entry, meta);
        let tag_str = string_of(&tag);
        color_chars(base, tag_str.as_str(), colors)
    } else {
        base
    };
    if options.classify {
        if let Some(s) = indicator_of(meta) {
            name.push(s);
            if width < usize::MAX {
                width = width + 1;
            }
        }
    }
    if options.long_listing && meta.kind == FileKind::Symlink {
        if let Some(target) = &entry.link_target {
            let tv = chars_of(target.as_str());
            proof {
                reveal_strlit(" -> ");
                reveal_strlit("fi");
                reveal_strlit("mi");
            }
            assert(" -> "@ =~= seq![' ', '-', '>', ' ']);
            assert("fi"@ =~= seq!['f', 'i']);
            assert("mi"@ =~= seq!['m', 'i']);
            append_str(&mut name, " -> ");
            let shown = if options.color {
                if entry.link_target_exists {
                    color_chars(tv, "fi", colors)
                } else {
                    color_chars(tv, "mi", colors)
                }
            } else {
                tv
            };
            append_chars(&mut name, &shown);
        }
    }
    Cell { contents: string_of(&name), width }
}

/// The widths of the link-count and size fields of an entry, or zeros when
/// its metadata could not be read.
pub fn display_dir_entry_size(entry: &Entry, options: &Options) -> (r: (usize, usize))
    ensures
        match entry.meta {
            Some(m) => r.0 as nat == dec_text(m.nlink as nat).len() && r.1 as nat == size_text(
                m,
                *options,
            ).len(),
            None => r == (0usize, 0usize),
        },
{
    match &entry.meta {
        Some(m) => {
            let l = decimal(m.nlink as u128);
            let s = size_chars(m, options);
            (l.len(), s.len())
        },
        None => (0, 0),
    }
}

/// One line of the long format: inode column, type glyph and permissions,
/// the link count right-aligned to `max_links`, owner, group, the size
/// right-aligned to `max_size`, the date and the display name, separated by
/// single spaces.
pub open spec fn long_text(
    e: Entry,
    m: FileMeta,
    strip: Option<Seq<char>>,
    max_links: nat,
    max_size: nat,
    date: LocalTime,
    o: Options,
    t: ColorView,
) -> Seq<char> {
    inode_text(m, o) + seq![type_glyph(m.kind)] + perm_text(m.mode) + seq![' '] + right_aligned(
        dec_text(m.nlink as nat),
        max_links,
    ) + seq![' '] + user_text(e, m, o) + seq![' '] + group_text(e, m, o) + seq![' ']
        + right_aligned(size_text(m, o), max_size) + seq![' '] + date_text(date) + seq![' ']
        + name_text(e, m, strip, o, t)
}

/// The long-format line of an entry whose metadata is `meta`, with its
/// shown timestamp already converted to `date`.
#[verifier::rlimit(40)]
pub fn long_line(
    entry: &Entry,
    meta: &FileMeta,
    strip: Option<&str>,
    max_links: usize,
    max_size: usize,
    date: &LocalTime,
    options: &Options,
    colors: &ColorTable,
) -> (r: String)
    requires
        date.wf(),
    ensures
        r@ == long_text(
            *entry,
            *meta,
            match strip {
                Some(p) => Some(p@),
                None => None,
            },
            max_links as nat,
            max_size as nat,
            *date,
            *options,
            colors.view(),
        ),
{
    let mut v = get_inode(meta, options);
    let ty = display_file_type(meta.kind);
    let ty_v = chars_of(ty.as_str());
    append_chars(&mut v, &ty_v);
    let p = display_permissions_unix(meta.mode);
    let p_v = chars_of(p.as_str());
    append_chars(&mut v, &p_v);
    v.push(' ');
    let links = pad_chars(decimal(meta.nlink as u128), max_links);
    append_chars(&mut v, &links);
    v.push(' ');
    let u = id_or_name(meta.uid, &entry.owner_name, options.numeric_ids);
    append_chars(&mut v, &u);
    v.push(' ');
    let g = id_or_name(meta.gid, &entry.group_name, options.numeric_ids);
    append_chars(&mut v, &g);
    v.push(' ');
    let s = pad_chars(size_chars(meta, options), max_size);
    append_chars(&mut v, &s);
    v.push(' ');
    let d = format_date(date);
    append_chars(&mut v, &d);
    v.push(' ');
    let cell = display_file_name(entry, strip, meta, options, colors);
    let n = chars_of(cell.contents.as_str());
    append_chars(&mut v, &n);
    let ghost sv = match strip {
        Some(p) => Some(p@),
        None => None,
    };
    assert(v@ =~= long_text(
        *entry,
        *meta,
        sv,
        max_links as nat,
        max_size as nat,
        *date,
        *options,
        colors.view(),
    ));
    string_of(&v)
}

/// The long-format line of an entry, or the diagnostic `name: error` when
/// its metadata could not be read. The date is the shown timestamp shifted
/// by the machine's offset from UTC.
pub fn display_item_long(
    entry: &Entry,
    strip: Option<&str>,
    max_links: usize,
    max_size: usize,
    options: &Options,
    colors: &ColorTable,
) -> (r: Result<String, String>)
    requires
        entry.wf(),
    ensures
        entry.meta is None <==> r is Err,
        r is Err ==> r->Err_0@ == diagnostic_text(
            *entry,
            match strip {
                Some(p) => Some(p@),
                None => None,
            },
        ),
        r is Ok ==> exists|off: i32|
            r->Ok_0@ == long_text(
                *entry,
                entry.meta->0,
                match strip {
                    Some(p) => Some(p@),
                    None => None,
                },
                max_links as nat,
                max_size as nat,
                #[trigger] civil_of(shown_time(entry.meta->0, *options) + off),
                *options,
                colors.view(),
            ),
{
    match &entry.meta {
        None => Err(diagnostic(entry, strip)),
        Some(m) => {
            let secs = if options.sort_by_ctime {
                m.ctime
            } else {
                m.mtime
            };
            let off = utc_offset(secs);
            let t = local_date(secs, off);
            assert(t == civil_of(shown_time(*m, *options) + off));
            Ok(long_line(entry, m, strip, max_links, max_size, &t, options, colors))
        },
    }
}

/// The report for an entry whose metadata could not be read: its shown name,
/// `: ` and the error.
pub open spec fn diagnostic_text(e: Entry, strip: Option<Seq<char>>) -> Seq<char> {
    file_name_text(e.path@, strip) + seq![':', ' '] + e.error@
}

/// The report line for an unreadable entry.
pub fn diagnostic(entry: &Entry, strip: Option<&str>) -> (r: String)
    ensures
        r@ == diagnostic_text(
            *entry,
            match strip {
                Some(p) => Some(p@),
                None => None,
            },
        ),
{
    let path = chars_of(entry.path.as_str());
    let mut v = match strip {
        Some(p) => {
            let pv = chars_of(p);
            file_name_chars(&path, Some(&pv))
        },
        None => file_name_chars(&path, None),
    };
    v.push(':');
    v.push(' ');
    let e = chars_of(entry.error.as_str());
    append_chars(&mut v, &e);
    string_of(&v)
}

} // verus!
