//! Permission strings and type glyphs.
use vstd::prelude::*;
use crate::entry::{FileKind, FileMeta};
use crate::text::string_of;

verus! {

pub const S_ISUID: u32 = 0o4000;
pub const S_ISGID: u32 = 0o2000;
pub const S_ISVTX: u32 = 0o1000;
pub const S_IRUSR: u32 = 0o400;
pub const S_IWUSR: u32 = 0o200;
pub const S_IXUSR: u32 = 0o100;
pub const S_IRGRP: u32 = 0o40;
pub const S_IWGRP: u32 = 0o20;
pub const S_IXGRP: u32 = 0o10;
pub const S_IROTH: u32 = 0o4;
pub const S_IWOTH: u32 = 0o2;
pub const S_IXOTH: u32 = 0o1;

/// Whether any of the bits of `bits` is set in `mode`.
pub open spec fn has(mode: u32, bits: u32) -> bool {
    mode & bits != 0
}

/// The character for a plain read or write position.
pub open spec fn flag_char(mode: u32, bit: u32, c: char) -> char {
    if has(mode, bit) { c } else { '-' }
}

/// The character for an execute position that shares its slot with a
/// special bit: `on`/`off` when the special bit is set (by the execute bit),
/// else `x` or `-`.
pub open spec fn exec_char(mode: u32, special: u32, x: u32, on: char, off: char) -> char {
    if has(mode, special) {
        if has(mode, x) { on } else { off }
    } else if has(mode, x) {
        'x'
    } else {
        '-'
    }
}

/// The nine-character permission text of `mode`.
pub open spec fn perm_text(mode: u32) -> Seq<char> {
    seq![
        flag_char(mode, S_IRUSR, 'r'),
        flag_char(mode, S_IWUSR, 'w'),
        exec_char(mode, S_ISUID, S_IXUSR, 's', 'S'),
        flag_char(mode, S_IRGRP, 'r'),
        flag_char(mode, S_IWGRP, 'w'),
        exec_char(mode, S_ISGID, S_IXGRP, 's', 'S'),
        flag_char(mode, S_IROTH, 'r'),
        flag_char(mode, S_IWOTH, 'w'),
        exec_char(mode, S_ISVTX, S_IXOTH, 't', 'T'),
    ]
}

/// `bit` when `on`, else nothing.
pub open spec fn bit_if(on: bool, bit: u32) -> u32 {
    if on { bit } else { 0 }
}

/// The mode bits that a nine-character permission text stands for.
pub open spec fn perm_bits(s: Seq<char>) -> u32 {
    bit_if(s[0] == 'r', S_IRUSR) | bit_if(s[1] == 'w', S_IWUSR) | bit_if(
        s[2] == 'x' || s[2] == 's',
        S_IXUSR,
    ) | bit_if(s[2] == 's' || s[2] == 'S', S_ISUID) | bit_if(s[3] == 'r', S_IRGRP) | bit_if(
        s[4] == 'w',
        S_IWGRP,
    ) | bit_if(s[5] == 'x' || s[5] == 's', S_IXGRP) | bit_if(s[5] == 's' || s[5] == 'S', S_ISGID)
        | bit_if(s[6] == 'r', S_IROTH) | bit_if(s[7] == 'w', S_IWOTH) | bit_if(
        s[8] == 'x' || s[8] == 't',
        S_IXOTH,
    ) | bit_if(s[8] == 't' || s[8] == 'T', S_ISVTX)
}

/// Reading a permission text back gives the twelve permission and special
/// bits of the mode it was rendered from, and nothing else.
pub proof fn lemma_permissions_round_trip(mode: u32)
    ensures
        perm_text(mode).len() == 9,
        perm_bits(perm_text(mode)) == mode & 0o7777,
{
    let s = perm_text(mode);
    let b0 = mode & 0o400 != 0;
    let b1 = mode & 0o200 != 0;
    let b2 = mode & 0o100 != 0;
    let b3 = mode & 0o40 != 0;
    let b4 = mode & 0o20 != 0;
    let b5 = mode & 0o10 != 0;
    let b6 = mode & 0o4 != 0;
    let b7 = mode & 0o2 != 0;
    let b8 = mode & 0o1 != 0;
    let u = mode & 0o4000 != 0;
    let g = mode & 0o2000 != 0;
    let t = mode & 0o1000 != 0;
    assert(perm_bits(s) == bit_if(b0, 0o400) | bit_if(b1, 0o200) | bit_if(b2, 0o100) | bit_if(
        u,
        0o4000,
    ) | bit_if(b3, 0o40) | bit_if(b4, 0o20) | bit_if(b5, 0o10) | bit_if(g, 0o2000) | bit_if(
        b6,
        0o4,
    ) | bit_if(b7, 0o2) | bit_if(b8, 0o1) | bit_if(t, 0o1000));
    assert(mode & 0o7777 == (if mode & 0o400 != 0 { 0o400u32 } else { 0u32 }) | (if mode & 0o200
        != 0 {
        0o200u32
    } else {
        0u32
    }) | (if mode & 0o100 != 0 { 0o100u32 } else { 0u32 }) | (if mode & 0o4000 != 0 {
        0o4000u32
    } else {
        0u32
    }) | (if mode & 0o40 != 0 { 0o40u32 } else { 0u32 }) | (if mode & 0o20 != 0 {
        0o20u32
    } else {
        0u32
    }) | (if mode & 0o10 != 0 { 0o10u32 } else { 0u32 }) | (if mode & 0o2000 != 0 {
        0o2000u32
    } else {
        0u32
    }) | (if mode & 0o4 != 0 { 0o4u32 } else { 0u32 }) | (if mode & 0o2 != 0 {
        0o2u32
    } else {
        0u32
    }) | (if mode & 0o1 != 0 { 0o1u32 } else { 0u32 }) | (if mode & 0o1000 != 0 {
        0o1000u32
    } else {
        0u32
    })) by (bit_vector);
}

fn flag(mode: u32, bit: u32, c: char) -> (r: char)
    ensures
        r == flag_char(mode, bit, c),
{
    if mode & bit != 0 { c } else { '-' }
}

fn exec_flag(mode: u32, special: u32, x: u32, on: char, off: char) -> (r: char)
    ensures
        r == exec_char(mode, special, x, on, off),
{
    if mode & special != 0 {
        if mode & x != 0 { on } else { off }
    } else if mode & x != 0 {
        'x'
    } else {
        '-'
    }
}

/// The nine-character permission text of `mode`: `rwx` for owner, group and
/// others, with setuid/setgid as `s`/`S` and sticky as `t`/`T` in the
/// execute slots.
pub fn display_permissions_unix(mode: u32) -> (r: String)
    ensures
        r@ == perm_text(mode),
{
    let mut v: Vec<char> = Vec::new();
    v.push(flag(mode, S_IRUSR, 'r'));
    v.push(flag(mode, S_IWUSR, 'w'));
    v.push(exec_flag(mode, S_ISUID, S_IXUSR, 's', 'S'));
    v.push(flag(mode, S_IRGRP, 'r'));
    v.push(flag(mode, S_IWGRP, 'w'));
    v.push(exec_flag(mode, S_ISGID, S_IXGRP, 's', 'S'));
    v.push(flag(mode, S_IROTH, 'r'));
    v.push(flag(mode, S_IWOTH, 'w'));
    v.push(exec_flag(mode, S_ISVTX, S_IXOTH, 't', 'T'));
    assert(v@ =~= perm_text(mode));
    string_of(&v)
}

/// The permission text of an entry's metadata.
pub fn display_permissions(meta: &FileMeta) -> (r: String)
    ensures
        r@ == perm_text(meta.mode),
{
    display_permissions_unix(meta.mode)
}

/// The one-character type glyph of a kind.
pub open spec fn type_glyph(kind: FileKind) -> char {
    match kind {
        FileKind::Directory => 'd',
        FileKind::Symlink => 'l',
        FileKind::BlockDevice => 'b',
        FileKind::CharDevice => 'c',
        FileKind::Fifo => 'p',
        FileKind::Socket => 's',
        _ => '-',
    }
}

/// `d` for a directory, `l` for a symbolic link, `b`/`c` for devices, `p`
/// for a fifo, `s` for a socket and `-` for anything else.
pub fn display_file_type(kind: FileKind) -> (r: String)
    ensures
        r@ == seq![type_glyph(kind)],
{
    let c = match kind {
        FileKind::Directory => 'd',
        FileKind::Symlink => 'l',
        FileKind::BlockDevice => 'b',
        FileKind::CharDevice => 'c',
        FileKind::Fifo => 'p',
        FileKind::Socket => 's',
        _ => '-',
    };
    let mut v: Vec<char> = Vec::new();
    v.push(c);
    assert(v@ =~= seq![type_glyph(kind)]);
    string_of(&v)
}

} // verus!
