//! The sort engine: a stable ordering of entries by the key the options
//! select, reversed at the end when asked.
use vstd::prelude::*;
use crate::config::{Options, SortKey};
use crate::entry::Entry;
use crate::names::{char_views, components, components_of};
use crate::text::chars_of;

verus! {

/// Lexicographic order on character sequences, by code point.
pub open spec fn lex_lt(a: Seq<char>, b: Seq<char>) -> bool
    decreases a.len(),
{
    if a.len() == 0 {
        b.len() > 0
    } else if b.len() == 0 {
        false
    } else if a[0] != b[0] {
        a[0] < b[0]
    } else {
        lex_lt(a.drop_first(), b.drop_first())
    }
}

pub proof fn lemma_lex_irreflexive(a: Seq<char>)
    ensures
        !lex_lt(a, a),
    decreases a.len(),
{
    if a.len() > 0 {
        lemma_lex_irreflexive(a.drop_first());
    }
}

pub proof fn lemma_lex_transitive(a: Seq<char>, b: Seq<char>, c: Seq<char>)
    requires
        lex_lt(a, b),
        lex_lt(b, c),
    ensures
        lex_lt(a, c),
    decreases a.len(),
{
    if a.len() > 0 && b.len() > 0 && c.len() > 0 {
        if a[0] == b[0] && b[0] == c[0] {
            lemma_lex_transitive(a.drop_first(), b.drop_first(), c.drop_first());
        }
    }
}

pub proof fn lemma_lex_total(a: Seq<char>, b: Seq<char>)
    ensures
        a == b || lex_lt(a, b) || lex_lt(b, a),
    decreases a.len(),
{
    if a.len() > 0 && b.len() > 0 && a[0] == b[0] {
        lemma_lex_total(a.drop_first(), b.drop_first());
        if a.drop_first() == b.drop_first() {
            assert(a =~= seq![a[0]] + a.drop_first());
            assert(b =~= seq![b[0]] + b.drop_first());
        }
    } else if a.len() == 0 && b.len() == 0 {
        assert(a =~= b);
    } else if a.len() > 0 && b.len() > 0 {
    }
}

/// The rank of a path component in `Path`'s order: root, current
/// directory, parent, then normal components.
pub open spec fn comp_rank(c: Seq<char>) -> int {
    if c == seq!['/'] {
        0
    } else if c == seq!['.'] {
        1
    } else if c == seq!['.', '.'] {
        2
    } else {
        3
    }
}

/// The order of path components: by rank, normal components by their text.
pub open spec fn comp_lt(a: Seq<char>, b: Seq<char>) -> bool {
    comp_rank(a) < comp_rank(b) || (comp_rank(a) == 3 && comp_rank(b) == 3 && lex_lt(a, b))
}

/// Lexicographic order on component sequences, the order of `Path`.
pub open spec fn path_lt(a: Seq<Seq<char>>, b: Seq<Seq<char>>) -> bool
    decreases a.len(),
{
    if a.len() == 0 {
        b.len() > 0
    } else if b.len() == 0 {
        false
    } else if a[0] != b[0] {
        comp_lt(a[0], b[0])
    } else {
        path_lt(a.drop_first(), b.drop_first())
    }
}

pub proof fn lemma_comp_order(a: Seq<char>, b: Seq<char>, c: Seq<char>)
    ensures
        !comp_lt(a, a),
        comp_lt(a, b) && comp_lt(b, c) ==> comp_lt(a, c),
        a == b || comp_lt(a, b) || comp_lt(b, a),
{
    lemma_lex_irreflexive(a);
    if comp_lt(a, b) && comp_lt(b, c) && comp_rank(a) == 3 && comp_rank(c) == 3 {
        lemma_lex_transitive(a, b, c);
    }
    lemma_lex_total(a, b);
    if comp_rank(a) == comp_rank(b) && comp_rank(a) < 3 {
        assert(a == b);
    }
}

pub proof fn lemma_path_irreflexive(a: Seq<Seq<char>>)
    ensures
        !path_lt(a, a),
    decreases a.len(),
{
    if a.len() > 0 {
        lemma_path_irreflexive(a.drop_first());
    }
}

pub proof fn lemma_path_transitive(a: Seq<Seq<char>>, b: Seq<Seq<char>>, c: Seq<Seq<char>>)
    requires
        path_lt(a, b),
        path_lt(b, c),
    ensures
        path_lt(a, c),
    decreases a.len(),
{
    if a.len() > 0 && b.len() > 0 && c.len() > 0 {
        lemma_comp_order(a[0], b[0], c[0]);
        lemma_comp_order(b[0], c[0], a[0]);
        lemma_comp_order(c[0], a[0], b[0]);
        if a[0] == b[0] && b[0] == c[0] {
            lemma_path_transitive(a.drop_first(), b.drop_first(), c.drop_first());
        }
    }
}

pub proof fn lemma_path_total(a: Seq<Seq<char>>, b: Seq<Seq<char>>)
    ensures
        a == b || path_lt(a, b) || path_lt(b, a),
    decreases a.len(),
{
    if a.len() > 0 && b.len() > 0 && a[0] == b[0] {
        lemma_path_total(a.drop_first(), b.drop_first());
        if a.drop_first() == b.drop_first() {
            assert(a =~= seq![a[0]] + a.drop_first());
            assert(b =~= seq![b[0]] + b.drop_first());
        }
    } else if a.len() == 0 && b.len() == 0 {
        assert(a =~= b);
    } else if a.len() > 0 && b.len() > 0 {
        lemma_comp_order(a[0], b[0], a[0]);
    }
}

/// Modification time of an entry as (seconds, nanoseconds); unreadable
/// metadata counts as the epoch.
pub open spec fn mtime_key(e: Entry) -> (int, int) {
    match e.meta {
        Some(m) => (m.mtime as int, m.mtime_nsec as int),
        None => (0, 0),
    }
}

/// Status-change time of an entry; unreadable metadata counts as zero.
pub open spec fn ctime_key(e: Entry) -> int {
    match e.meta {
        Some(m) => m.ctime as int,
        None => 0,
    }
}

/// Size of an entry; unreadable metadata counts as zero.
pub open spec fn size_key(e: Entry) -> int {
    match e.meta {
        Some(m) => m.size as int,
        None => 0,
    }
}

/// Whether time `a` is strictly later than time `b`.
pub open spec fn later(a: (int, int), b: (int, int)) -> bool {
    a.0 > b.0 || (a.0 == b.0 && a.1 > b.1)
}

/// Whether `a` goes strictly before `b` under the key `k`, before any
/// reversal: newer first for times, smaller first for sizes, component by
/// component for paths, never for the enumeration order.
pub open spec fn before(k: SortKey, a: Entry, b: Entry) -> bool {
    match k {
        SortKey::Mtime => later(mtime_key(a), mtime_key(b)),
        SortKey::Ctime => ctime_key(a) > ctime_key(b),
        SortKey::Size => size_key(a) < size_key(b),
        SortKey::Name => path_lt(components(a.path@), components(b.path@)),
        SortKey::Unsorted => false,
    }
}

/// Whether two entries tie under `k`.
pub open spec fn same_key(k: SortKey, a: Entry, b: Entry) -> bool {
    !before(k, a, b) && !before(k, b, a)
}

/// No entry of `s` goes strictly before an earlier one.
pub open spec fn ordered(k: SortKey, s: Seq<Entry>) -> bool {
    forall|i: int, j: int| 0 <= i < j < s.len() ==> !before(k, #[trigger] s[j], #[trigger] s[i])
}

/// The entries of `s` that tie with `x`, in their order in `s`.
pub open spec fn ties(k: SortKey, s: Seq<Entry>, x: Entry) -> Seq<Entry> {
    s.filter(|e: Entry| same_key(k, e, x))
}

/// `after` is `before_` sorted stably: ordered, and every group of tying
/// entries keeps its members and their relative order.
pub open spec fn stably_sorted(k: SortKey, before_: Seq<Entry>, after: Seq<Entry>) -> bool {
    &&& ordered(k, after)
    &&& forall|x: Entry| #[trigger] ties(k, after, x) == ties(k, before_, x)
}

/// What sorting `before_` under `o` yields: the stable order, reversed when
/// the options reverse it.
pub open spec fn sorted_by(o: Options, before_: Seq<Entry>, after: Seq<Entry>) -> bool {
    if o.reverses() {
        stably_sorted(o.sort_key(), before_, after.reverse())
    } else {
        stably_sorted(o.sort_key(), before_, after)
    }
}

pub proof fn lemma_before_order(k: SortKey, a: Entry, b: Entry, c: Entry)
    ensures
        !before(k, a, a),
        before(k, a, b) && before(k, b, c) ==> before(k, a, c),
        before(k, a, c) ==> before(k, a, b) || before(k, b, c),
{
    if k == SortKey::Name {
        let (pa, pb, pc) = (components(a.path@), components(b.path@), components(c.path@));
        lemma_path_irreflexive(pa);
        if path_lt(pa, pb) && path_lt(pb, pc) {
            lemma_path_transitive(pa, pb, pc);
        }
        if path_lt(pa, pc) {
            lemma_path_total(pa, pb);
            if path_lt(pb, pa) {
                lemma_path_transitive(pb, pa, pc);
            }
        }
    }
}

fn lex_less(a: &Vec<char>, b: &Vec<char>) -> (r: bool)
    ensures
        r == lex_lt(a@, b@),
{
    let mut i: usize = 0;
    assert(a@.skip(0) == a@ && b@.skip(0) == b@);
    while i < a.len() && i < b.len() && a[i] == b[i]
        invariant
            i <= a@.len(),
            i <= b@.len(),
            lex_lt(a@, b@) == lex_lt(a@.skip(i as int), b@.skip(i as int)),
        decreases a.len() - i,
    {
        proof {
            assert(a@.skip(i as int).drop_first() == a@.skip(i + 1));
            assert(b@.skip(i as int).drop_first() == b@.skip(i + 1));
        }
        i += 1;
    }
    if i == a.len() {
        i < b.len()
    } else if i == b.len() {
        false
    } else {
        a[i] < b[i]
    }
}

fn rank_of(c: &Vec<char>) -> (r: u8)
    ensures
        r as int == comp_rank(c@),
{
    let r: u8 = if c.len() == 1 && c[0] == '/' {
        0
    } else if c.len() == 1 && c[0] == '.' {
        1
    } else if c.len() == 2 && c[0] == '.' && c[1] == '.' {
        2
    } else {
        3
    };
    proof {
        if c@.len() == 1 {
            assert(c@ =~= seq![c@[0]]);
        }
        if c@.len() == 2 {
            assert(c@ =~= seq![c@[0], c@[1]]);
        }
        assert(seq!['/'].len() == 1 && seq!['.'].len() == 1 && seq!['.', '.'].len() == 2);
        assert(seq!['/'][0] == '/' && seq!['.'][0] == '.' && seq!['.', '.'][1] == '.');
    }
    r
}

fn path_less(a: &Vec<Vec<char>>, b: &Vec<Vec<char>>) -> (r: bool)
    ensures
        r == path_lt(char_views(a@), char_views(b@)),
{
    let ghost va = char_views(a@);
    let ghost vb = char_views(b@);
    let mut i: usize = 0;
    assert(va.skip(0) == va && vb.skip(0) == vb);
    while i < a.len() && i < b.len() && crate::text::same_chars(&a[i], &b[i])
        invariant
            i <= a@.len(),
            i <= b@.len(),
            va == char_views(a@),
            vb == char_views(b@),
            path_lt(va, vb) == path_lt(va.skip(i as int), vb.skip(i as int)),
        decreases a.len() - i,
    {
        proof {
            assert(va.skip(i as int).drop_first() == va.skip(i + 1));
            assert(vb.skip(i as int).drop_first() == vb.skip(i + 1));
            assert(va.skip(i as int)[0] == vb.skip(i as int)[0]);
        }
        i += 1;
    }
    if i == a.len() {
        proof {
            assert(va.skip(i as int).len() == 0);
        }
        i < b.len()
    } else if i == b.len() {
        false
    } else {
        assert(va.skip(i as int)[0] == a@[i as int]@);
        assert(vb.skip(i as int)[0] == b@[i as int]@);
        let ra = rank_of(&a[i]);
        let rb = rank_of(&b[i]);
        ra < rb || (ra == 3 && rb == 3 && lex_less(&a[i], &b[i]))
    }
}

fn precedes(k: SortKey, a: &Entry, b: &Entry) -> (r: bool)
    ensures
        r == before(k, *a, *b),
{
    match k {
        SortKey::Mtime => {
            let (sa, na): (i64, i64) = match &a.meta {
                Some(m) => (m.mtime, m.mtime_nsec),
                None => (0, 0),
            };
            let (sb, nb): (i64, i64) = match &b.meta {
                Some(m) => (m.mtime, m.mtime_nsec),
                None => (0, 0),
            };
            sa > sb || (sa == sb && na > nb)
        },
        SortKey::Ctime => {
            let ca: i64 = match &a.meta {
                Some(m) => m.ctime,
                None => 0,
            };
            let cb: i64 = match &b.meta {
                Some(m) => m.ctime,
                None => 0,
            };
            ca > cb
        },
        SortKey::Size => {
            let za: u64 = match &a.meta {
                Some(m) => m.size,
                None => 0,
            };
            let zb: u64 = match &b.meta {
                Some(m) => m.size,
                None => 0,
            };
            za < zb
        },
        SortKey::Name => {
            let pa = components_of(&chars_of(a.path.as_str()));
            let pb = components_of(&chars_of(b.path.as_str()));
            path_less(&pa, &pb)
        },
        SortKey::Unsorted => false,
    }
}

proof fn lemma_ties_push(k: SortKey, s: Seq<Entry>, e: Entry, x: Entry)
    ensures
        ties(k, s.push(e), x) == if same_key(k, e, x) {
            ties(k, s, x).push(e)
        } else {
            ties(k, s, x)
        },
{
    let f = |y: Entry| same_key(k, y, x);
    assert(s.push(e) == s + seq![e]);
    Seq::filter_distributes_over_add(s, seq![e], f);
    assert(seq![e].filter(f) == if f(e) { seq![e] } else { Seq::<Entry>::empty() }) by {
        reveal_with_fuel(Seq::filter, 2);
        assert(seq![e].drop_last() =~= Seq::<Entry>::empty());
    }
    assert(s.filter(f) + seq![e] == s.filter(f).push(e));
    assert(s.filter(f) + Seq::<Entry>::empty() == s.filter(f));
}

proof fn lemma_ties_insert(k: SortKey, out: Seq<Entry>, p: int, e: Entry, x: Entry)
    requires
        0 <= p <= out.len(),
        forall|j: int| p <= j < out.len() ==> before(k, e, #[trigger] out[j]),
    ensures
        ties(k, out.insert(p, e), x) == if same_key(k, e, x) {
            ties(k, out, x).push(e)
        } else {
            ties(k, out, x)
        },
{
    let f = |y: Entry| same_key(k, y, x);
    let a = out.take(p);
    let b = out.skip(p);
    assert(out == a + b);
    assert(out.insert(p, e) == a.push(e) + b);
    Seq::filter_distributes_over_add(a, b, f);
    Seq::filter_distributes_over_add(a.push(e), b, f);
    lemma_ties_push(k, a, e, x);
    if same_key(k, e, x) {
        assert forall|j: int| 0 <= j < b.len() implies !f(#[trigger] b[j]) by {
            lemma_before_order(k, e, x, b[j]);
            lemma_before_order(k, x, e, b[j]);
            lemma_before_order(k, b[j], x, e);
            assert(before(k, e, out[p + j]));
        }
        lemma_filter_none(b, f);
        assert(b.filter(f) =~= Seq::<Entry>::empty());
        assert(a.filter(f).push(e) + Seq::<Entry>::empty() == a.filter(f).push(e));
        assert(a.filter(f) + Seq::<Entry>::empty() == a.filter(f));
    }
}

proof fn lemma_filter_none(s: Seq<Entry>, f: spec_fn(Entry) -> bool)
    requires
        forall|j: int| 0 <= j < s.len() ==> !f(#[trigger] s[j]),
    ensures
        s.filter(f) == Seq::<Entry>::empty(),
    decreases s.len(),
{
    reveal(Seq::filter);
    if s.len() > 0 {
        lemma_filter_none(s.drop_last(), f);
        assert(forall|j: int| 0 <= j < s.drop_last().len() ==> s.drop_last()[j] == s[j]);
    }
}

/// Puts `e` into the ordered `out` after every entry it does not go before.
fn insert_stable(k: SortKey, out: &mut Vec<Entry>, e: Entry)
    requires
        ordered(k, old(out)@),
    ensures
        ordered(k, final(out)@),
        forall|x: Entry| #[trigger] ties(k, final(out)@, x) == if same_key(k, e, x) {
            ties(k, old(out)@, x).push(e)
        } else {
            ties(k, old(out)@, x)
        },
{
    let ghost o = out@;
    let mut lo: usize = 0;
    let mut hi: usize = out.len();
    while lo < hi
        invariant
            lo <= hi <= out@.len(),
            out@ == o,
            ordered(k, o),
            forall|m: int| 0 <= m < lo ==> !before(k, e, #[trigger] o[m]),
            forall|m: int| hi <= m < o.len() ==> before(k, e, #[trigger] o[m]),
        decreases hi - lo,
    {
        let mid = lo + (hi - lo) / 2;
        if precedes(k, &e, &out[mid]) {
            proof {
                assert forall|m: int| mid <= m < o.len() implies before(k, e, #[trigger] o[m]) by {
                    lemma_before_order(k, e, o[m], o[mid as int]);
                    if m > mid {
                        assert(!before(k, o[m], o[mid as int]));
                    }
                }
            }
            hi = mid;
        } else {
            proof {
                assert forall|m: int| 0 <= m <= mid implies !before(k, e, #[trigger] o[m]) by {
                    lemma_before_order(k, e, o[mid as int], o[m]);
                    if m < mid {
                        assert(!before(k, o[mid as int], o[m]));
                    }
                }
            }
            lo = mid + 1;
        }
    }
    let j = lo;
    proof {
        assert forall|x: Entry| #[trigger] ties(k, o.insert(j as int, e), x) == if same_key(
            k,
            e,
            x,
        ) {
            ties(k, o, x).push(e)
        } else {
            ties(k, o, x)
        } by {
            lemma_ties_insert(k, o, j as int, e, x);
        }
    }
    out.insert(j, e);
    proof {
        let n = out@;
        assert(n == o.insert(j as int, e));
        assert forall|a: int, b: int| 0 <= a < b < n.len() implies !before(
            k,
            #[trigger] n[b],
            #[trigger] n[a],
        ) by {
            lemma_before_order(k, n[b], n[a], n[b]);
            if a == j {
                lemma_before_order(k, e, o[b - 1], e);
            } else if b == j {
            } else {
                let a0 = if a < j { a } else { a - 1 };
                let b0 = if b < j { b } else { b - 1 };
                assert(n[a] == o[a0] && n[b] == o[b0]);
            }
        }
    }
}

/// `s` in reverse order.
fn reverse_entries(s: Vec<Entry>) -> (r: Vec<Entry>)
    ensures
        r@ == s@.reverse(),
{
    let mut src = s;
    let ghost orig = src@;
    let mut out: Vec<Entry> = Vec::new();
    while src.len() > 0
        invariant
            src@ == orig.take(src@.len() as int),
            src@.len() <= orig.len(),
            out@ == orig.skip(src@.len() as int).reverse(),
        decreases src.len(),
    {
        let ghost n = src@.len();
        let e = src.pop().unwrap();
        out.push(e);
        proof {
            assert(orig.take(n as int).drop_last() == orig.take(n - 1));
            assert(out@ =~= orig.skip(n - 1).reverse());
        }
    }
    assert(orig.skip(0) == orig);
    out
}

/// Orders `entries` by the key that `options` selects (modification or
/// status-change time newest first, size, or path), keeping tying
/// entries in their input order, then reverses the whole sequence when
/// the reverse flag is set; the size ordering inverts that flag, so sizes
/// come largest first unless reversed. Paths are compared component by
/// component. Unreadable metadata counts as zero.
pub fn sort_entries(entries: &mut Vec<Entry>, options: &Options)
    ensures
        sorted_by(*options, old(entries)@, final(entries)@),
        options.sort_key() == SortKey::Size && !options.reverse ==> forall|i: int, j: int|
            0 <= i < j < final(entries)@.len() ==> size_key(#[trigger] final(entries)@[i])
                >= size_key(#[trigger] final(entries)@[j]),
        options.sort_key() == SortKey::Size && options.reverse ==> forall|i: int, j: int|
            0 <= i < j < final(entries)@.len() ==> size_key(#[trigger] final(entries)@[i])
                <= size_key(#[trigger] final(entries)@[j]),
        options.sort_key() == SortKey::Mtime && !options.reverse ==> forall|i: int, j: int|
            0 <= i < j < final(entries)@.len() ==> !later(
                mtime_key(#[trigger] final(entries)@[j]),
                mtime_key(#[trigger] final(entries)@[i]),
            ),
        !options.reverses() ==> forall|x: Entry| #[trigger]
            ties(options.sort_key(), final(entries)@, x) == ties(
                options.sort_key(),
                old(entries)@,
                x,
            ),
{
    let k = options.key();
    let ghost orig = entries@;
    let mut src: Vec<Entry> = Vec::new();
    core::mem::swap(entries, &mut src);
    let mut out: Vec<Entry> = Vec::new();
    let ghost mut done: nat = 0;
    while src.len() > 0
        invariant
            done <= orig.len(),
            src@ == orig.skip(done as int),
            ordered(k, out@),
            forall|x: Entry| #[trigger] ties(k, out@, x) == ties(k, orig.take(done as int), x),
        decreases src.len(),
    {
        let e = src.remove(0);
        proof {
            assert(e == orig[done as int]);
            assert(orig.take((done + 1) as int) == orig.take(done as int).push(e));
            assert forall|x: Entry| #[trigger] ties(k, orig.take((done + 1) as int), x) == if same_key(
                k,
                e,
                x,
            ) {
                ties(k, orig.take(done as int), x).push(e)
            } else {
                ties(k, orig.take(done as int), x)
            } by {
                lemma_ties_push(k, orig.take(done as int), e, x);
            }
        }
        insert_stable(k, &mut out, e);
        proof {
            assert(src@ =~= orig.skip((done + 1) as int));
            done = done + 1;
        }
    }
    assert(orig.take(orig.len() as int) == orig);
    let rev = if k == SortKey::Size { !options.reverse } else { options.reverse };
    if rev {
        let r = reverse_entries(out);
        *entries = r;
        proof {
            assert(entries@.reverse() =~= out@);
        }
    } else {
        *entries = out;
    }
    proof {
        let f = entries@;
        if k == SortKey::Size && !options.reverse {
            assert forall|i: int, j: int| 0 <= i < j < f.len() implies size_key(#[trigger] f[i])
                >= size_key(#[trigger] f[j]) by {
                let r = f.reverse();
                assert(r[f.len() - 1 - j] == f[j]);
                assert(r[f.len() - 1 - i] == f[i]);
            }
        }
        if k == SortKey::Size && options.reverse {
            assert forall|i: int, j: int| 0 <= i < j < f.len() implies size_key(#[trigger] f[i])
                <= size_key(#[trigger] f[j]) by {
                assert(!before(k, f[j], f[i]));
            }
        }
        if k == SortKey::Mtime && !options.reverse {
            assert forall|i: int, j: int| 0 <= i < j < f.len() implies !later(
                mtime_key(#[trigger] f[j]),
                mtime_key(#[trigger] f[i]),
            ) by {
                assert(!before(k, f[j], f[i]));
            }
        }
    }
}

} // verus!
