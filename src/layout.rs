//! The layout engine: a batch of sorted entries as a long-format table, one
//! name per line, or a terminal-width grid.
use vstd::prelude::*;
use crate::calendar::civil_of;
use crate::colors::{ColorTable, ColorView};
use crate::config::Options;
use crate::entry::{Entry, FileMeta, chosen_metadata};
use crate::render::{
    Cell, diagnostic, diagnostic_text, display_dir_entry_size, display_file_name,
    display_item_long, display_width, long_text, name_text, name_width, shown_time, size_text,
};
use crate::names::file_name_text;
use crate::text::{append_chars, chars_of, dec_text, max, string_of};

verus! {

/// The text that `term_grid` lays the cells out as, in at most `width`
/// columns with `spacing` spaces between grid columns, filling columns top to
/// bottom when `columns_first` (else rows left to right); `None` when no
/// arrangement fits.
pub uninterp spec fn grid_text(
    cells: Seq<(Seq<char>, usize)>,
    width: usize,
    spacing: usize,
    columns_first: bool,
) -> Option<Seq<char>>;

/// Spaces between the columns of the grid layout.
pub const GRID_SPACING: usize = 2;

/// The largest cell width that the grid is given.
pub const MAX_CELL_WIDTH: u64 = 0x1_0000_0000;

/// The largest number of cells that the grid is given.
pub const MAX_CELLS: u64 = 0x8000_0000;

pub open spec fn cell_views(cells: Seq<Cell>) -> Seq<(Seq<char>, usize)> {
    cells.map_values(|c: Cell| (c.contents@, c.width))
}

/// Relies on `Grid::fit_into_width` of term_grid and on the fitted grid's
/// `Display`: the text of the grid, or `None`; an empty grid is the empty
/// text.
#[verifier::external_body]
fn fit_grid(cells: &Vec<Cell>, width: usize, spacing: usize, columns_first: bool) -> (r: Option<
    String,
>)
    requires
        spacing as int <= MAX_CELL_WIDTH as int,
        cells@.len() <= MAX_CELLS as int,
        forall|i: int| 0 <= i < cells@.len() ==> (#[trigger] cells@[i]).width as int <= MAX_CELL_WIDTH as int,
    ensures
        match grid_text(cell_views(cells@), width, spacing, columns_first) {
            Some(t) => r is Some && r->0@ == t,
            None => r is None,
        },
        cells@.len() == 0 ==> r is Some && r->0@.len() == 0,
{
    let direction = if columns_first {
        term_grid::Direction::TopToBottom
    } else {
        term_grid::Direction::LeftToRight
    };
    let filling = term_grid::Filling::Spaces(spacing);
    let mut grid = term_grid::Grid::new(term_grid::GridOptions { filling, direction });
    for c in cells {
        grid.add(term_grid::Cell { contents: c.contents.clone(), width: c.width });
    }
    grid.fit_into_width(width).map(|d| d.to_string())
}

pub open spec fn strip_view(strip: Option<&str>) -> Option<Seq<char>> {
    match strip {
        Some(p) => Some(p@),
        None => None,
    }
}

/// The grid cells of the readable entries, in order.
pub open spec fn cells_of(items: Seq<Entry>, s: Option<Seq<char>>, o: Options, t: ColorView) -> Seq<
    (Seq<char>, usize),
>
    decreases items.len(),
{
    if items.len() == 0 {
        Seq::empty()
    } else {
        let prev = cells_of(items.drop_last(), s, o, t);
        let e = items.last();
        match e.meta {
            Some(m) => prev.push((name_text(e, m, s, o, t), name_width(e, m, s, o))),
            None => prev,
        }
    }
}

/// The display names of the readable entries, one per line.
pub open spec fn lines_of(items: Seq<Entry>, s: Option<Seq<char>>, o: Options, t: ColorView) -> Seq<
    char,
>
    decreases items.len(),
{
    if items.len() == 0 {
        Seq::empty()
    } else {
        let prev = lines_of(items.drop_last(), s, o, t);
        let e = items.last();
        match e.meta {
            Some(m) => prev + name_text(e, m, s, o, t) + seq!['\n'],
            None => prev,
        }
    }
}

/// The reports of the unreadable entries, in order.
pub open spec fn diagnostics_of(items: Seq<Entry>, s: Option<Seq<char>>) -> Seq<Seq<char>>
    decreases items.len(),
{
    if items.len() == 0 {
        Seq::empty()
    } else {
        let prev = diagnostics_of(items.drop_last(), s);
        let e = items.last();
        match e.meta {
            Some(m) => prev,
            None => prev.push(diagnostic_text(e, s)),
        }
    }
}

/// The widths of the link-count and size columns: the widest field of the
/// batch, at least one.
pub open spec fn column_widths(items: Seq<Entry>, o: Options) -> (nat, nat)
    decreases items.len(),
{
    if items.len() == 0 {
        (1, 1)
    } else {
        let prev = column_widths(items.drop_last(), o);
        match items.last().meta {
            Some(m) => (
                if dec_text(m.nlink as nat).len() > prev.0 {
                    dec_text(m.nlink as nat).len()
                } else {
                    prev.0
                },
                if size_text(m, o).len() > prev.1 {
                    size_text(m, o).len()
                } else {
                    prev.1
                },
            ),
            None => prev,
        }
    }
}

/// The long-format lines of the readable entries, each with the local time
/// of its shown timestamp shifted by the offset from UTC at the same
/// position in `offs`.
pub open spec fn long_lines(
    items: Seq<Entry>,
    s: Option<Seq<char>>,
    w: (nat, nat),
    o: Options,
    t: ColorView,
    offs: Seq<i32>,
) -> Seq<char>
    decreases items.len(),
{
    if items.len() == 0 {
        Seq::empty()
    } else {
        let prev = long_lines(items.drop_last(), s, w, o, t, offs.drop_last());
        let e = items.last();
        match e.meta {
            Some(m) => prev + long_text(e, m, s, w.0, w.1, civil_of(shown_time(m, o) + offs.last()), o, t)
                + seq!['\n'],
            None => prev,
        }
    }
}

/// Whether the cells are within what the grid is given.
pub open spec fn grid_fits(cells: Seq<(Seq<char>, usize)>) -> bool {
    &&& cells.len() <= MAX_CELLS as int
    &&& forall|i: int| 0 <= i < cells.len() ==> (#[trigger] cells[i]).1 as int <= MAX_CELL_WIDTH as int
}

/// The short listing: the grid, filled column by column with two spaces
/// between columns, when names are not one per line, a terminal width is
/// known and the grid fits; otherwise one name per line.
pub open spec fn short_text(
    items: Seq<Entry>,
    s: Option<Seq<char>>,
    o: Options,
    t: ColorView,
    term_width: Option<usize>,
) -> Seq<char> {
    let cells = cells_of(items, s, o, t);
    if !o.one_file_per_line && term_width is Some && grid_fits(cells) && grid_text(
        cells,
        term_width->0,
        GRID_SPACING,
        true,
    ) is Some {
        grid_text(cells, term_width->0, GRID_SPACING, true)->0
    } else {
        lines_of(items, s, o, t)
    }
}

/// A link whose target is missing, listed with dereferencing on, takes its
/// own metadata: it is not reported as unreadable, and a plain short listing
/// shows its name on a line of its own, or as the one cell of the grid.
pub proof fn lemma_broken_link_listed(
    e: Entry,
    own: FileMeta,
    err: String,
    s: Option<Seq<char>>,
    o: Options,
    t: ColorView,
)
    requires
        o.dereference,
        e.meta == match chosen_metadata(o.dereference, Err::<FileMeta, String>(err), Ok::<FileMeta, String>(own)) {
            Ok(m) => Some(m),
            Err(_) => None::<FileMeta>,
        },
        !o.long_format(),
        !o.color,
        !o.classify,
        !o.inode,
    ensures
        e.meta == Some(own),
        diagnostics_of(seq![e], s) == Seq::<Seq<char>>::empty(),
        lines_of(seq![e], s, o, t) == file_name_text(e.path@, s) + seq!['\n'],
        cells_of(seq![e], s, o, t) == seq![
            (file_name_text(e.path@, s), display_width(file_name_text(e.path@, s))),
        ],
{
    let one = seq![e];
    assert(one.drop_last() =~= Seq::<Entry>::empty());
    assert(one.last() == e);
    assert(diagnostics_of(Seq::<Entry>::empty(), s) == Seq::<Seq<char>>::empty());
    assert(lines_of(Seq::<Entry>::empty(), s, o, t) == Seq::<char>::empty());
    assert(cells_of(Seq::<Entry>::empty(), s, o, t) == Seq::<(Seq<char>, usize)>::empty());
    assert(name_text(e, own, s, o, t) == file_name_text(e.path@, s));
    assert(Seq::<char>::empty() + file_name_text(e.path@, s) == file_name_text(e.path@, s));
    assert(Seq::<(Seq<char>, usize)>::empty().push(
        (file_name_text(e.path@, s), display_width(file_name_text(e.path@, s))),
    ) =~= seq![(file_name_text(e.path@, s), display_width(file_name_text(e.path@, s)))]);
}

/// What a batch renders to: the text for standard output and the reports of
/// the entries that could not be read.
pub struct Listing {
    pub text: String,
    pub diagnostics: Vec<String>,
}

impl Listing {
    pub open spec fn diagnostics_view(&self) -> Seq<Seq<char>> {
        self.diagnostics@.map_values(|d: String| d@)
    }
}

fn collect_diagnostics(items: &Vec<Entry>, strip: Option<&str>) -> (r: Vec<String>)
    ensures
        r@.map_values(|d: String| d@) == diagnostics_of(items@, strip_view(strip)),
{
    let mut out: Vec<String> = Vec::new();
    let mut i: usize = 0;
    while i < items.len()
        invariant
            i <= items@.len(),
            out@.map_values(|d: String| d@) == diagnostics_of(
                items@.take(i as int),
                strip_view(strip),
            ),
        decreases items.len() - i,
    {
        assert(items@.take(i + 1).drop_last() == items@.take(i as int));
        assert(items@.take(i + 1).last() == items@[i as int]);
        if items[i].meta.is_none() {
            let d = diagnostic(&items[i], strip);
            out.push(d);
            assert(out@.map_values(|d: String| d@) =~= diagnostics_of(
                items@.take(i as int),
                strip_view(strip),
            ).push(d@));
        }
        i += 1;
    }
    assert(items@.take(items@.len() as int) == items@);
    out
}

fn widths_of(items: &Vec<Entry>, options: &Options) -> (r: (usize, usize))
    ensures
        r.0 as nat == column_widths(items@, *options).0,
        r.1 as nat == column_widths(items@, *options).1,
{
    let mut max_links: usize = 1;
    let mut max_size: usize = 1;
    let mut i: usize = 0;
    while i < items.len()
        invariant
            i <= items@.len(),
            max_links as nat == column_widths(items@.take(i as int), *options).0,
            max_size as nat == column_widths(items@.take(i as int), *options).1,
        decreases items.len() - i,
    {
        assert(items@.take(i + 1).drop_last() == items@.take(i as int));
        assert(items@.take(i + 1).last() == items@[i as int]);
        let (links, size) = display_dir_entry_size(&items[i], options);
        max_links = max(links, max_links);
        max_size = max(size, max_size);
        i += 1;
    }
    assert(items@.take(items@.len() as int) == items@);
    (max_links, max_size)
}

/// Lays out `items`. In the long format (long listing or numeric ids) the
/// link-count and size columns are right-aligned to the widest value of the
/// batch. Otherwise names go into a grid of `term_width` columns, or one
/// per line when that is asked, no width is known or the grid does not fit.
/// Entries whose metadata could not be read are left out and reported.
pub fn display_items(
    items: &Vec<Entry>,
    strip: Option<&str>,
    options: &Options,
    colors: &ColorTable,
    term_width: Option<usize>,
) -> (r: Listing)
    requires
        forall|i: int| 0 <= i < items@.len() ==> (#[trigger] items@[i]).wf(),
    ensures
        r.diagnostics_view() == diagnostics_of(items@, strip_view(strip)),
        options.long_format() ==> exists|offs: Seq<i32>|
            offs.len() == items@.len() && r.text@ == long_lines(
                items@,
                strip_view(strip),
                column_widths(items@, *options),
                *options,
                colors.view(),
                offs,
            ),
        !options.long_format() ==> r.text@ == short_text(
            items@,
            strip_view(strip),
            *options,
            colors.view(),
            term_width,
        ),
{
    let diagnostics = collect_diagnostics(items, strip);
    let ghost s = strip_view(strip);
    if options.long_listing || options.numeric_ids {
        let (max_links, max_size) = widths_of(items, options);
        let ghost w = column_widths(items@, *options);
        let mut out: Vec<char> = Vec::new();
        let ghost mut offs: Seq<i32> = Seq::empty();
        let mut i: usize = 0;
        while i < items.len()
            invariant
                i <= items@.len(),
                s == strip_view(strip),
                offs.len() == i,
                w == column_widths(items@, *options),
                max_links as nat == w.0,
                max_size as nat == w.1,
                forall|j: int| 0 <= j < items@.len() ==> (#[trigger] items@[j]).wf(),
                out@ == long_lines(items@.take(i as int), s, w, *options, colors.view(), offs),
            decreases items.len() - i,
        {
            assert(items@.take(i + 1).drop_last() == items@.take(i as int));
            assert(items@.take(i + 1).last() == items@[i as int]);
            match display_item_long(&items[i], strip, max_links, max_size, options, colors) {
                Ok(line) => {
                    let ghost t = choose|off: i32|
                        line@ == long_text(
                            items@[i as int],
                            items@[i as int].meta->0,
                            s,
                            max_links as nat,
                            max_size as nat,
                            #[trigger] civil_of(shown_time(items@[i as int].meta->0, *options) + off),
                            *options,
                            colors.view(),
                        );
                    let lv = chars_of(line.as_str());
                    append_chars(&mut out, &lv);
                    out.push('\n');
                    proof {
                        let nd = offs.push(t);
                        assert(nd.drop_last() == offs);
                        offs = nd;
                    }
                },
                Err(_) => {
                    proof {
                        let nd = offs.push(0i32);
                        assert(nd.drop_last() == offs);
                        offs = nd;
                    }
                },
            }
            i += 1;
        }
        assert(items@.take(items@.len() as int) == items@);
        Listing { text: string_of(&out), diagnostics }
    } else {
        let ghost t = colors.view();
        let mut cells: Vec<Cell> = Vec::new();
        let mut lines: Vec<char> = Vec::new();
        let mut fits = true;
        let mut i: usize = 0;
        while i < items.len()
            invariant
                i <= items@.len(),
                s == strip_view(strip),
                t == colors.view(),
                cell_views(cells@) == cells_of(items@.take(i as int), s, *options, t),
                lines@ == lines_of(items@.take(i as int), s, *options, t),
                fits == grid_fits(cell_views(cells@)),
            decreases items.len() - i,
        {
            assert(items@.take(i + 1).drop_last() == items@.take(i as int));
            assert(items@.take(i + 1).last() == items@[i as int]);
            if let Some(m) = &items[i].meta {
                let c = display_file_name(&items[i], strip, m, options, colors);
                let cv = chars_of(c.contents.as_str());
                append_chars(&mut lines, &cv);
                lines.push('\n');
                let ghost before = cell_views(cells@);
                if c.width as u64 > MAX_CELL_WIDTH || cells.len() as u64 >= MAX_CELLS {
                    fits = false;
                }
                cells.push(c);
                proof {
                    let now = cell_views(cells@);
                    assert(now =~= before.push((cv@, cells@.last().width)));
                    let last = now.len() - 1;
                    assert(now[last].1 == cells@.last().width);
                    assert(forall|j: int| 0 <= j < before.len() ==> now[j] == before[j]);
                    if fits {
                        assert forall|j: int| 0 <= j < now.len() implies (#[trigger] now[j]).1 as int
                            <= MAX_CELL_WIDTH as int by {
                            if j < before.len() {
                                assert(now[j] == before[j]);
                            }
                        }
                        assert(grid_fits(now));
                    } else {
                        if now.len() <= MAX_CELLS as int && now[last].1 as int <= MAX_CELL_WIDTH as int {
                            assert(!grid_fits(before));
                            let j = choose|j: int|
                                0 <= j < before.len() && !((#[trigger] before[j]).1 as int
                                    <= MAX_CELL_WIDTH as int);
                            assert(now[j] == before[j]);
                        }
                        assert(!grid_fits(now));
                    }
                }
            }
            i += 1;
        }
        assert(items@.take(items@.len() as int) == items@);
        if !options.one_file_per_line && fits {
            if let Some(w) = term_width {
                assert forall|j: int| 0 <= j < cells@.len() implies (#[trigger] cells@[j]).width as int
                    <= MAX_CELL_WIDTH as int by {
                    assert(cell_views(cells@)[j].1 == cells@[j].width);
                }
                if let Some(g) = fit_grid(&cells, w, GRID_SPACING, true) {
                    return Listing { text: g, diagnostics };
                }
            }
        }
        Listing { text: string_of(&lines), diagnostics }
    }
}

} // verus!
