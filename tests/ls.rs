use unix_utils::colors::{color_name, ColorTable};
use unix_utils::config::Options;
use unix_utils::entry::{get_metadata, Entry, FileKind, FileMeta};
use unix_utils::layout::display_items;
use unix_utils::names::{get_file_name, should_display};
use unix_utils::perms::{display_file_type, display_permissions, display_permissions_unix};
use unix_utils::render::{
    display_date, display_dir_entry_size, display_file_name, display_file_size, display_group,
    display_symlink_count, display_uname, format_date, human_size,
};
use unix_utils::calendar::{local_date, LocalTime};
use unix_utils::sort::sort_entries;
use unix_utils::text::{decimal_string, max, pad_left};
use unix_utils::traverse::{
    dir_header, directory_paths, enters, implied_entries, join_path, locations, split_targets,
    subdirectories, Target,
};

fn options() -> Options {
    Options {
        dirs: vec![String::from(".")],
        show_hidden: false,
        ignore_implied: false,
        dirs_themselves: false,
        long_listing: false,
        dereference: false,
        reverse: false,
        recurse: false,
        sort_by_mtime: false,
        sort_by_ctime: false,
        sort_by_size: false,
        no_sort: true,
        ignore_backups: true,
        numeric_ids: false,
        one_file_per_line: false,
        human_readable: false,
        classify: false,
        inode: false,
        color: false,
    }
}

fn meta(kind: FileKind, mode: u32, size: u64) -> FileMeta {
    FileMeta {
        kind,
        mode,
        uid: 1000,
        gid: 1000,
        nlink: 1,
        size,
        mtime: 1_565_000_000,
        mtime_nsec: 0,
        ctime: 1_565_000_000,
        ino: 42,
    }
}

fn entry(path: &str, m: Option<FileMeta>) -> Entry {
    Entry {
        path: path.to_string(),
        meta: m,
        error: String::from("No such file or directory"),
        exists: true,
        link_target: None,
        link_target_exists: false,
        owner_name: Some(String::from("user")),
        group_name: Some(String::from("users")),
    }
}

fn paths(v: &Vec<Entry>) -> Vec<String> {
    v.iter().map(|e| e.path.clone()).collect()
}

#[test]
fn t_permissions() {
    let o = options();
    let home = entry("/home", Some(meta(FileKind::Directory, 0o755, 4096)));
    let m = home.meta.unwrap();
    assert_eq!(display_permissions_unix(m.mode), "rwxr-xr-x");
    assert_eq!(display_file_type(m.kind), "d");
    let mut root_owned = entry("/home", Some(m));
    root_owned.owner_name = Some(String::from("root"));
    assert_eq!(display_uname(&root_owned, &m, &o), "root");

    let errno = meta(FileKind::Regular, 0o644, 1679);
    assert_eq!(display_permissions_unix(errno.mode), "rw-r--r--");
    assert_eq!(display_file_type(errno.kind), "-");
}

#[test]
fn tests_t_permissions() {
    assert_eq!((3 + 2), 5);
}

#[test]
fn permission_special_bits() {
    assert_eq!(display_permissions_unix(0o4755), "rwsr-xr-x");
    assert_eq!(display_permissions_unix(0o4644), "rwSr--r--");
    assert_eq!(display_permissions_unix(0o2755), "rwxr-sr-x");
    assert_eq!(display_permissions_unix(0o2745), "rwxr-Sr-x");
    assert_eq!(display_permissions_unix(0o1777), "rwxrwxrwt");
    assert_eq!(display_permissions_unix(0o1776), "rwxrwxrwT");
    assert_eq!(display_permissions_unix(0), "---------");
    assert_eq!(display_permissions_unix(0o7777), "rwsrwsrwt");
}

#[test]
fn permission_text_reads_back() {
    for mode in [0o0u32, 0o644, 0o755, 0o4711, 0o2070, 0o1007, 0o7000, 0o7777] {
        let s: Vec<char> = display_permissions_unix(mode).chars().collect();
        let mut bits = 0u32;
        let flags = [0o400, 0o200, 0o100, 0o40, 0o20, 0o10, 0o4, 0o2, 0o1];
        for i in 0..9 {
            if s[i] != '-' && s[i] != 'S' && s[i] != 'T' {
                bits |= flags[i];
            }
        }
        if s[2] == 's' || s[2] == 'S' {
            bits |= 0o4000;
        }
        if s[5] == 's' || s[5] == 'S' {
            bits |= 0o2000;
        }
        if s[8] == 't' || s[8] == 'T' {
            bits |= 0o1000;
        }
        assert_eq!(bits, mode & 0o7777);
    }
}

#[test]
fn file_type_glyphs() {
    assert_eq!(display_file_type(FileKind::Symlink), "l");
    assert_eq!(display_file_type(FileKind::Fifo), "p");
    assert_eq!(display_file_type(FileKind::Socket), "s");
    assert_eq!(display_file_type(FileKind::BlockDevice), "b");
    assert_eq!(display_file_type(FileKind::CharDevice), "c");
}

#[test]
fn size_sort_is_descending_unless_reversed() {
    let mut o = options();
    o.no_sort = false;
    o.sort_by_size = true;
    let mut v = vec![
        entry("b", Some(meta(FileKind::Regular, 0o644, 50))),
        entry("a", Some(meta(FileKind::Regular, 0o644, 100))),
        entry("c", Some(meta(FileKind::Regular, 0o644, 75))),
    ];
    sort_entries(&mut v, &o);
    assert_eq!(paths(&v), vec!["a", "c", "b"]);
    o.reverse = true;
    sort_entries(&mut v, &o);
    assert_eq!(paths(&v), vec!["b", "c", "a"]);
}

#[test]
fn mtime_sort_is_newest_first() {
    let mut o = options();
    o.no_sort = false;
    o.sort_by_mtime = true;
    let mut old = meta(FileKind::Regular, 0o644, 1);
    old.mtime = 100;
    let mut new = meta(FileKind::Regular, 0o644, 1);
    new.mtime = 300;
    let mut newer_ns = meta(FileKind::Regular, 0o644, 1);
    newer_ns.mtime = 300;
    newer_ns.mtime_nsec = 5;
    let mut v = vec![
        entry("old", Some(old)),
        entry("new", Some(new)),
        entry("newest", Some(newer_ns)),
        entry("unreadable", None),
    ];
    sort_entries(&mut v, &o);
    assert_eq!(paths(&v), vec!["newest", "new", "old", "unreadable"]);
}

#[test]
fn ctime_sort_uses_status_change_time() {
    let mut o = options();
    o.no_sort = false;
    o.sort_by_mtime = true;
    o.sort_by_ctime = true;
    let mut a = meta(FileKind::Regular, 0o644, 1);
    a.ctime = 10;
    a.mtime = 900;
    let mut b = meta(FileKind::Regular, 0o644, 1);
    b.ctime = 20;
    b.mtime = 100;
    let mut v = vec![entry("a", Some(a)), entry("b", Some(b))];
    sort_entries(&mut v, &o);
    assert_eq!(paths(&v), vec!["b", "a"]);
}

#[test]
fn equal_keys_keep_enumeration_order() {
    let mut o = options();
    o.no_sort = false;
    o.sort_by_mtime = true;
    let m = meta(FileKind::Regular, 0o644, 1);
    let mut v = vec![
        entry("x", Some(m)),
        entry("y", Some(m)),
        entry("z", Some(m)),
    ];
    sort_entries(&mut v, &o);
    assert_eq!(paths(&v), vec!["x", "y", "z"]);
}

#[test]
fn name_order_and_enumeration_order() {
    let mut o = options();
    let mut v = vec![
        entry("./b", None),
        entry("./a.txt", None),
        entry("./a", None),
    ];
    sort_entries(&mut v, &o);
    assert_eq!(paths(&v), vec!["./a", "./a.txt", "./b"]);
    o.no_sort = false;
    let mut w = vec![entry("q", None), entry("p", None)];
    sort_entries(&mut w, &o);
    assert_eq!(paths(&w), vec!["q", "p"]);
    o.reverse = true;
    sort_entries(&mut w, &o);
    assert_eq!(paths(&w), vec!["p", "q"]);
}

#[test]
fn entry_filter() {
    let mut o = options();
    o.ignore_backups = false;
    assert!(!should_display(".hidden", &o));
    assert!(should_display("visible", &o));
    o.show_hidden = true;
    assert!(should_display(".hidden", &o));
    o.show_hidden = false;
    o.ignore_implied = true;
    assert!(should_display(".hidden", &o));
    assert!(should_display("backup~", &o));
    o.ignore_backups = true;
    assert!(!should_display("backup~", &o));
    o.show_hidden = true;
    assert!(!should_display("backup~", &o));
}

#[test]
fn color_fallbacks() {
    let t = ColorTable::parse("ln=01;36:fi=00");
    let n = String::from("name");
    assert_eq!(
        color_name(n.clone(), "or", &t),
        color_name(n.clone(), "ln", &t)
    );
    assert_eq!(color_name(n.clone(), "ln", &t), "\x1b[01;36mname\x1b[0m");
    assert_eq!(
        color_name(n.clone(), "mi", &t),
        color_name(n.clone(), "fi", &t)
    );
    assert_eq!(color_name(n.clone(), "so", &t), "name");
    assert_eq!(color_name(n.clone(), "dir", &t), "\x1b[01;94mname\x1b[0m");
    let u = ColorTable::parse("or=40;31:ec=E:lc=<:rc=>:rs=R");
    assert_eq!(color_name(n.clone(), "or", &u), "<40;31>nameE<R>");
    assert_eq!(color_name(n.clone(), "mi", &u), "name");
}

#[test]
fn color_spec_parsing() {
    let t = ColorTable::parse("a=1:a=2:bad:x=y=z::*.rs=31");
    let n = String::from("f");
    assert_eq!(color_name(n.clone(), "a", &t), "\x1b[2mf\x1b[0m");
    assert_eq!(color_name(n.clone(), "bad", &t), "f");
    assert_eq!(color_name(n.clone(), "x", &t), "f");
    assert_eq!(color_name(n.clone(), "*.rs", &t), "\x1b[31mf\x1b[0m");
    let d = ColorTable::from_spec(None);
    assert_eq!(color_name(n.clone(), "ex", &d), "\x1b[01;32mf\x1b[0m");
    assert_eq!(color_name(n.clone(), "dir", &d), "\x1b[01;94mf\x1b[0m");
}

#[test]
fn long_listing_by_size() {
    let mut o = options();
    o.no_sort = false;
    o.long_listing = true;
    o.sort_by_size = true;
    let mut v = vec![
        entry("dir/b.txt", Some(meta(FileKind::Regular, 0o644, 50))),
        entry("dir/sub", Some(meta(FileKind::Directory, 0o755, 40))),
        entry("dir/a.txt", Some(meta(FileKind::Regular, 0o644, 100))),
    ];
    sort_entries(&mut v, &o);
    assert_eq!(paths(&v), vec!["dir/a.txt", "dir/b.txt", "dir/sub"]);
    let t = ColorTable::from_spec(None);
    let out = display_items(&v, Some("dir"), &o, &t, Some(80));
    let lines: Vec<&str> = out.text.lines().collect();
    assert_eq!(lines.len(), 3);
    assert!(lines[0].starts_with("-rw-r--r-- 1 user users 100 "));
    assert!(lines[0].ends_with(" a.txt"));
    assert!(lines[1].starts_with("-rw-r--r-- 1 user users  50 "));
    assert!(lines[1].ends_with(" b.txt"));
    assert!(lines[2].starts_with("drwxr-xr-x 1 user users  40 "));
    assert!(lines[2].ends_with(" sub"));
    for l in &lines {
        assert_eq!(&l[1..10].len(), &9);
    }
    assert!(out.diagnostics.is_empty());
}

#[test]
fn broken_symlink_is_still_listed() {
    let mut o = options();
    o.dereference = true;
    o.one_file_per_line = true;
    let own = meta(FileKind::Symlink, 0o777, 7);
    let m = get_metadata(true, Err(String::from("No such file")), Ok(own));
    assert_eq!(m, Ok(own));
    let mut e = entry("d/dangling", m.ok());
    e.exists = false;
    e.link_target = Some(String::from("missing"));
    let t = ColorTable::from_spec(None);
    let out = display_items(&vec![e], Some("d"), &o, &t, None);
    assert_eq!(out.text, "dangling\n");
    assert!(out.diagnostics.is_empty());
    assert_eq!(get_metadata(false, Ok(meta(FileKind::Regular, 0, 1)), Ok(own)), Ok(own));
}

#[test]
fn human_readable_sizes() {
    assert_eq!(human_size(1024).into_iter().collect::<String>(), "1.00K");
    assert_eq!(human_size(1023).into_iter().collect::<String>(), "1023");
    assert_eq!(human_size(1536).into_iter().collect::<String>(), "1.50K");
    assert_eq!(human_size(1048576).into_iter().collect::<String>(), "1.00M");
    assert_eq!(human_size(4096).into_iter().collect::<String>(), "4.00K");
    assert_eq!(human_size(1047552).into_iter().collect::<String>(), "1023.00K");
    assert_eq!(human_size(u64::MAX).into_iter().collect::<String>(), "16.00E");
    let mut o = options();
    o.human_readable = true;
    assert_eq!(display_file_size(&meta(FileKind::Regular, 0, 1024), &o), "1.00K");
    o.human_readable = false;
    assert_eq!(display_file_size(&meta(FileKind::Regular, 0, 1024), &o), "1024");
}

#[test]
fn numbers_and_padding() {
    assert_eq!(decimal_string(0), "0");
    assert_eq!(decimal_string(4096), "4096");
    assert_eq!(decimal_string(u64::MAX), "18446744073709551615");
    assert_eq!(pad_left(String::from("42"), 5), "   42");
    assert_eq!(pad_left(String::from("12345"), 3), "12345");
    assert_eq!(max(3, 9), 9);
    assert_eq!(max(9, 3), 9);
    let mut m = meta(FileKind::Regular, 0, 12345);
    m.nlink = 12;
    assert_eq!(display_symlink_count(&m), "12");
    assert_eq!(display_dir_entry_size(&entry("x", Some(m)), &options()), (2, 5));
    assert_eq!(display_dir_entry_size(&entry("x", None), &options()), (0, 0));
}

#[test]
fn owner_and_group_fields() {
    let mut o = options();
    let m = meta(FileKind::Regular, 0o644, 1);
    let mut e = entry("f", Some(m));
    assert_eq!(display_uname(&e, &m, &o), "user");
    assert_eq!(display_group(&e, &m, &o), "users");
    e.owner_name = None;
    assert_eq!(display_uname(&e, &m, &o), "1000");
    o.numeric_ids = true;
    assert_eq!(display_group(&e, &m, &o), "1000");
}

#[test]
fn file_names() {
    assert_eq!(get_file_name("./src/lib.rs", Some("./src")), "lib.rs");
    assert_eq!(get_file_name("/usr", Some("/")), "usr");
    assert_eq!(get_file_name("dir/", Some("dir")), ".");
    assert_eq!(get_file_name("other/x", Some("dir")), "other/x");
    assert_eq!(get_file_name("plain", None), "plain");
    assert_eq!(get_file_name("", None), ".");
}

#[test]
fn display_names_with_classify_color_and_inode() {
    let mut o = options();
    o.classify = true;
    let t = ColorTable::from_spec(None);
    let dir = entry("p/sub", Some(meta(FileKind::Directory, 0o755, 1)));
    let c = display_file_name(&dir, Some("p"), &dir.meta.unwrap(), &o, &t);
    assert_eq!(c.contents, "sub/");
    assert_eq!(c.width, 4);
    let exe = entry("p/run", Some(meta(FileKind::Regular, 0o755, 1)));
    let c = display_file_name(&exe, Some("p"), &exe.meta.unwrap(), &o, &t);
    assert_eq!(c.contents, "run*");
    o.color = true;
    o.classify = false;
    let txt = entry("p/notes.txt", Some(meta(FileKind::Regular, 0o644, 1)));
    let c = display_file_name(&txt, Some("p"), &txt.meta.unwrap(), &o, &t);
    assert_eq!(c.contents, "\x1b[1;93mnotes.txt\x1b[0m");
    assert_eq!(c.width, 9);
    o.color = false;
    o.inode = true;
    let c = display_file_name(&txt, Some("p"), &txt.meta.unwrap(), &o, &t);
    assert_eq!(c.contents, "00000042 notes.txt");
    let wide = entry("p/\u{65e5}\u{672c}", Some(meta(FileKind::Regular, 0o644, 1)));
    o.inode = false;
    let c = display_file_name(&wide, Some("p"), &wide.meta.unwrap(), &o, &t);
    assert_eq!(c.contents, "\u{65e5}\u{672c}");
    assert_eq!(c.width, 4);
}

#[test]
fn long_symlink_names() {
    let mut o = options();
    o.long_listing = true;
    let t = ColorTable::from_spec(None);
    let mut l = entry("d/link", Some(meta(FileKind::Symlink, 0o777, 6)));
    l.link_target = Some(String::from("target"));
    let c = display_file_name(&l, Some("d"), &l.meta.unwrap(), &o, &t);
    assert_eq!(c.contents, "link -> target");
    o.color = true;
    l.exists = false;
    let c = display_file_name(&l, Some("d"), &l.meta.unwrap(), &o, &t);
    assert_eq!(
        c.contents,
        "\x1b[40;31;01mlink\x1b[0m -> \x1b[01;05;37;41mtarget\x1b[0m"
    );
}

#[test]
fn grid_and_one_per_line_layouts() {
    let o = options();
    let t = ColorTable::from_spec(None);
    let v = vec![
        entry("d/a", Some(meta(FileKind::Regular, 0o644, 1))),
        entry("d/bb", Some(meta(FileKind::Regular, 0o644, 1))),
        entry("d/gone", None),
        entry("d/c", Some(meta(FileKind::Regular, 0o644, 1))),
    ];
    let out = display_items(&v, Some("d"), &o, &t, Some(80));
    assert_eq!(out.text, "a  bb  c\n");
    assert_eq!(out.diagnostics, vec![String::from("gone: No such file or directory")]);
    let narrow = display_items(&v, Some("d"), &o, &t, Some(4));
    assert_eq!(narrow.text, "a\nbb\nc\n");
    let none = display_items(&v, Some("d"), &o, &t, None);
    assert_eq!(none.text, "a\nbb\nc\n");
}

#[test]
fn dates() {
    let t = LocalTime { year: 119, month: 7, day: 9, hour: 1, minute: 5 };
    assert_eq!(format_date(&t).into_iter().collect::<String>(), "2019-08-09 01:05");
    let d = display_date(&meta(FileKind::Regular, 0, 1), &options());
    assert_eq!(d.len(), 16);
    assert!(d.starts_with("2019-08-"));
    assert_eq!(&d[4..5], "-");
    assert_eq!(&d[13..14], ":");
}

#[test]
fn traversal_decisions() {
    let mut o = options();
    let t = |p: &str, d: bool, l: bool| Target { path: p.to_string(), is_dir: d, is_symlink: l };
    let targets = vec![t("f", false, false), t("d", true, false), t("ld", true, true), t("ld/", true, true)];
    let (files, dirs) = split_targets(&targets, &o);
    assert_eq!(files, vec!["f"]);
    assert_eq!(dirs, vec!["d", "ld", "ld/"]);
    o.long_listing = true;
    assert!(!enters(&targets[2], &o));
    assert!(enters(&targets[3], &o));
    o.dereference = true;
    assert!(enters(&targets[2], &o));
    o.dirs_themselves = true;
    assert!(!enters(&targets[1], &o));

    let names = vec![String::from(".git"), String::from("src"), String::from("old~")];
    let o = options();
    assert_eq!(directory_paths(".", &names, &o), vec!["./src"]);
    assert_eq!(join_path("/", "usr"), "/usr");
    assert_eq!(join_path("a", "b"), "a/b");
    assert!(implied_entries("a", &o).is_empty());
    let mut h = options();
    h.show_hidden = true;
    assert_eq!(implied_entries("a", &h), vec!["a/.", "a/.."]);
    assert_eq!(dir_header("src"), "\nsrc:");
    let es = vec![
        entry("a/x", Some(meta(FileKind::Directory, 0o755, 1))),
        entry("a/y", Some(meta(FileKind::Regular, 0o644, 1))),
        entry("a/z", None),
    ];
    assert_eq!(subdirectories(&es), vec!["a/x"]);
}

#[test]
fn locations_and_permissions_of_metadata() {
    let mut o = options();
    assert_eq!(locations(&o), vec!["."]);
    o.dirs = vec![String::from("."), String::from("src")];
    assert_eq!(locations(&o), vec![".", "src"]);
    o.dirs = vec![String::from("src"), String::from(".")];
    assert_eq!(locations(&o), vec!["src", "."]);
    assert_eq!(display_permissions(&meta(FileKind::Regular, 0o100640, 1)), "rw-r-----");
}

#[test]
fn size_order_reverses_ties_unless_reversed() {
    let mut o = options();
    o.no_sort = false;
    o.sort_by_size = true;
    let m = meta(FileKind::Regular, 0o644, 10);
    let mut v = vec![entry("x", Some(m)), entry("y", Some(m))];
    sort_entries(&mut v, &o);
    assert_eq!(paths(&v), vec!["y", "x"]);
    o.reverse = true;
    let mut w = vec![entry("x", Some(m)), entry("y", Some(m))];
    sort_entries(&mut w, &o);
    assert_eq!(paths(&w), vec!["x", "y"]);
}

#[test]
fn t_file_size() {
    let o = options();
    let m = meta(FileKind::Regular, 0o644, 344);
    let size = display_file_size(&m, &o);
    assert_eq!(size, "344");
}

#[test]
fn t_dir_size() {
    let o = options();
    let m = meta(FileKind::Directory, 0o755, 4096);
    let size = display_file_size(&m, &o);
    assert_eq!(size, "4096");
}

#[test]
fn t_last_modified() {
    let mut o = options();
    o.no_sort = false;
    o.sort_by_mtime = true;
    let m = meta(FileKind::Regular, 0o644, 344);
    assert!(display_date(&m, &o).contains("2019-"));
}

#[test]
fn t_check_directories() {
    let mut o = options();
    o.no_sort = false;
    o.numeric_ids = true;
    let src = meta(FileKind::Directory, 0o755, 4096);
    let e = entry("./src", Some(src));
    assert_eq!(display_file_type(src.kind), "d");
    assert_eq!(display_file_size(&src, &o), "4096");
    assert_eq!(display_uname(&e, &src, &o), "1000");
    assert_eq!(display_group(&e, &src, &o), "1000");

    let mut link = meta(FileKind::Symlink, 0o777, 15);
    link.uid = 0;
    link.gid = 0;
    let l = entry("/usr/lib/libX11.so", Some(link));
    assert_eq!(display_file_type(link.kind), "l");
    assert_eq!(display_permissions(&link), "rwxrwxrwx");
    assert_eq!(display_uname(&l, &link, &o), "0");
    assert_eq!(display_file_size(&link, &o), "15");

    let archive = meta(FileKind::Regular, 0o644, 2_300_000);
    let b = display_file_size(&archive, &o);
    assert!(b.parse::<i32>().unwrap() > 2200000);
}

#[test]
fn calendar_dates() {
    let t = local_date(1_565_000_000, 0);
    assert_eq!(t, LocalTime { year: 119, month: 7, day: 5, hour: 10, minute: 13 });
    assert_eq!(local_date(-1, 0), LocalTime { year: 69, month: 11, day: 31, hour: 23, minute: 59 });
    assert_eq!(local_date(0, 3600), LocalTime { year: 70, month: 0, day: 1, hour: 1, minute: 0 });
    assert_eq!(local_date(951_782_400, 0), LocalTime { year: 100, month: 1, day: 29, hour: 0, minute: 0 });
    assert_eq!(format_date(&local_date(0, 0)).into_iter().collect::<String>(), "1970-01-01 00:00");
}

#[test]
fn paths_compare_and_strip_by_component() {
    let mut o = options();
    let mut v = vec![entry("a-b", None), entry("a/b", None), entry("/z", None), entry("./q", None)];
    sort_entries(&mut v, &o);
    assert_eq!(paths(&v), vec!["/z", "./q", "a/b", "a-b"]);
    o.reverse = true;
    sort_entries(&mut v, &o);
    assert_eq!(paths(&v), vec!["a-b", "a/b", "./q", "/z"]);
    assert_eq!(get_file_name("a//b", Some("a")), "b");
    assert_eq!(get_file_name("a/./b", Some("a")), "b");
    assert_eq!(get_file_name("a/b/", Some("a/")), "b");
    assert_eq!(get_file_name("ab/c", Some("a")), "ab/c");
    assert_eq!(get_file_name("d/..", Some("d")), "..");
    assert_eq!(get_file_name("/", Some("/")), ".");
}
