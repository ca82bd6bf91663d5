use std::path::Path;
use unix_utils::cat::{
    input_type, write_chunk, write_nonprint_to_end, write_tab_to_end, write_to_end, NumMode,
    Options, OutputState, Type,
};
use unix_utils::entry::FileKind;

fn kind_of(path: &str) -> FileKind {
    let ft = Path::new(path).metadata().unwrap().file_type();
    if ft.is_dir() {
        FileKind::Directory
    } else if ft.is_file() {
        FileKind::Regular
    } else {
        FileKind::CharDevice
    }
}

#[test]
fn t_input_type() {
    let mut t: Type = input_type("/usr", kind_of("/usr")).unwrap();
    assert_eq!(t, Type::Directory);
    assert_ne!(t, Type::File);

    t = input_type("/dev/null", kind_of("/dev/null")).unwrap();
    assert_eq!(t, Type::CharDevice);
    assert_ne!(t, Type::BlockDevice);
}

#[test]
fn tests_t_input_type() {
    let t: Type = input_type("C:\\Users", FileKind::Directory).unwrap();
    assert_eq!(t, Type::Directory);
    assert_ne!(t, Type::File);
}

#[test]
fn input_types_by_kind() {
    assert_eq!(input_type("-", FileKind::Directory), Some(Type::Stdin));
    assert_eq!(input_type("x", FileKind::Fifo), Some(Type::Fifo));
    assert_eq!(input_type("x", FileKind::Symlink), Some(Type::SymLink));
    assert_eq!(input_type("x", FileKind::Other), None);
}

#[test]
fn t_options() {
    let o: Options = Options {
        number: NumMode::NumAll,
        squeeze_blank: true,
        show_tabs: true,
        tab: "x".to_string(),
        end_of_line: "\\n".to_string(),
        show_nonprint: false,
    };

    assert_eq!(
        o,
        Options {
            number: NumMode::NumAll,
            squeeze_blank: true,
            show_tabs: true,
            tab: "x".to_string(),
            end_of_line: "\\n".to_string(),
            show_nonprint: false,
        }
    );
}

#[test]
fn output_state_starts_at_line_one() {
    let s = OutputState::new();
    assert_eq!(s.line_number, 1);
    assert!(s.at_line_start);
}

#[test]
fn copies_one_line() {
    let mut w: Vec<u8> = Vec::new();
    assert_eq!(write_to_end(b"abc\ndef", &mut w), 4);
    assert_eq!(w, b"abc");
    let mut w: Vec<u8> = Vec::new();
    assert_eq!(write_to_end(b"abc", &mut w), 0);
    assert_eq!(w, b"abc");
    let mut w: Vec<u8> = Vec::new();
    assert_eq!(write_to_end(b"\nx", &mut w), 1);
    assert!(w.is_empty());
}

#[test]
fn shows_tabs() {
    let mut w: Vec<u8> = Vec::new();
    assert_eq!(write_tab_to_end(b"a\tb\tc\nrest", &mut w), 6);
    assert_eq!(w, b"a^Ib^Ic");
    let mut w: Vec<u8> = Vec::new();
    assert_eq!(write_tab_to_end(b"\t", &mut w), 0);
    assert_eq!(w, b"^I");
}

#[test]
fn shows_nonprinting_bytes() {
    let mut w: Vec<u8> = Vec::new();
    let input = [1u8, b'a', 9, 127, 128, 200, 255, b'\n', b'z'];
    assert_eq!(write_nonprint_to_end(&input, &mut w, b"TAB"), 8);
    assert_eq!(w, b"^AaTAB^?M-^@M-HM-^?");
    let mut w: Vec<u8> = Vec::new();
    assert_eq!(write_nonprint_to_end(b"plain", &mut w, b"^I"), 0);
    assert_eq!(w, b"plain");
}

fn cat_options(number: NumMode, squeeze_blank: bool, show_tabs: bool, show_nonprint: bool) -> Options {
    Options {
        number,
        squeeze_blank,
        show_tabs,
        tab: String::from(if show_tabs { "^I" } else { "\t" }),
        end_of_line: String::from("\n"),
        show_nonprint,
    }
}

fn run(chunks: &[&[u8]], o: &Options) -> Vec<u8> {
    let mut state = OutputState::new();
    let mut out: Vec<u8> = Vec::new();
    let mut one_blank = false;
    for c in chunks {
        write_chunk(c, o, o.tab.as_bytes(), o.end_of_line.as_bytes(), &mut state, &mut one_blank, &mut out);
    }
    out
}

#[test]
fn numbers_every_line() {
    let o = cat_options(NumMode::NumAll, false, false, false);
    assert_eq!(run(&[b"a\n\nb\n"], &o), b"     1\ta\n     2\t\n     3\tb\n".to_vec());
}

#[test]
fn numbers_non_empty_lines_across_buffers() {
    let o = cat_options(NumMode::NumNonEmpty, false, false, false);
    assert_eq!(run(&[b"ab", b"c\n\nd\n"], &o), b"     1\tabc\n\n     2\td\n".to_vec());
}

#[test]
fn squeezes_blank_lines() {
    let o = cat_options(NumMode::NumNull, true, false, false);
    assert_eq!(run(&[b"a\n\n\n\nb\n"], &o), b"a\n\nb\n".to_vec());
}

#[test]
fn shows_tabs_and_ends() {
    let mut o = cat_options(NumMode::NumNull, false, true, false);
    o.end_of_line = String::from("$\n");
    assert_eq!(run(&[b"a\tb\n"], &o), b"a^Ib$\n".to_vec());
}
