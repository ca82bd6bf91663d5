//! Names: the entry filter, prefix stripping and file extensions.
use vstd::prelude::*;
use crate::config::Options;
use crate::colors::{fields, split_fields};
use crate::text::{append_chars, chars_of, same_chars, string_of};

verus! {

/// Whether an entry called `name` is listed: dot names only when hidden files
/// or almost-all are on, and names ending in `~` never when backups are
/// ignored.
pub open spec fn displayed(name: Seq<char>, o: Options) -> bool {
    &&& !(!o.show_hidden && !o.ignore_implied && name.len() > 0 && name[0] == '.')
    &&& !(o.ignore_backups && name.len() > 0 && name.last() == '~')
}

/// Decides whether a directory entry called `name` is displayed.
pub fn should_display(name: &str, options: &Options) -> (r: bool)
    ensures
        r == displayed(name@, *options),
{
    let v = chars_of(name);
    if !options.show_hidden && !options.ignore_implied {
        if v.len() > 0 && v[0] == '.' {
            return false;
        }
    }
    if options.ignore_backups && v.len() > 0 && v[v.len() - 1] == '~' {
        return false;
    }
    true
}

/// The pieces of `pieces` that are path components: empty pieces (repeated
/// or trailing separators) and `.` pieces are skipped, except a `.` that
/// comes first.
pub open spec fn kept_pieces(pieces: Seq<Seq<char>>) -> Seq<Seq<char>>
    decreases pieces.len(),
{
    if pieces.len() == 0 {
        Seq::empty()
    } else {
        let prev = kept_pieces(pieces.drop_last());
        let p = pieces.last();
        if p.len() > 0 && (p != seq!['.'] || pieces.len() == 1) {
            prev.push(p)
        } else {
            prev
        }
    }
}

/// The components of a path, as `Path::components` gives them: a leading
/// `/` for the root, then the non-empty pieces between separators, with `.`
/// kept only at the start of a relative path. The root is `/`, the current
/// directory `.`, the parent `..`; any other text is a normal component.
pub open spec fn components(path: Seq<char>) -> Seq<Seq<char>> {
    let root: Seq<Seq<char>> = if path.len() > 0 && path[0] == '/' {
        seq![seq!['/']]
    } else {
        Seq::empty()
    };
    root + kept_pieces(fields(path, '/'))
}

/// Components written out as a path: separated by `/`, none after the root.
pub open spec fn joined_components(cs: Seq<Seq<char>>) -> Seq<char>
    decreases cs.len(),
{
    if cs.len() == 0 {
        Seq::empty()
    } else {
        let prev = joined_components(cs.drop_last());
        if prev.len() == 0 || prev == seq!['/'] {
            prev + cs.last()
        } else {
            prev + seq!['/'] + cs.last()
        }
    }
}

/// The components of `path` after those of `prefix`, when `prefix`'s
/// components begin `path`'s, as `Path::strip_prefix` matches them.
pub open spec fn stripped(path: Seq<char>, prefix: Seq<char>) -> Option<Seq<Seq<char>>> {
    let c = components(path);
    let p = components(prefix);
    if p.len() <= c.len() && c.take(p.len() as int) == p {
        Some(c.skip(p.len() as int))
    } else {
        None
    }
}

/// The name shown for `path`: the components left after the directory
/// `strip` when `path` lies inside it, else the path as written; `.` when
/// nothing is left.
pub open spec fn file_name_text(path: Seq<char>, strip: Option<Seq<char>>) -> Seq<char> {
    let n = match strip {
        Some(p) => match stripped(path, p) {
            Some(r) => joined_components(r),
            None => path,
        },
        None => path,
    };
    if n.len() == 0 {
        seq!['.']
    } else {
        n
    }
}

fn is_dot(p: &Vec<char>) -> (r: bool)
    ensures
        r == (p@ == seq!['.']),
{
    let r = p.len() == 1 && p[0] == '.';
    assert(r ==> p@ =~= seq!['.']);
    assert(p@ == seq!['.'] ==> (p@.len() == 1 && p@[0] == '.'));
    r
}

pub open spec fn char_views(v: Seq<Vec<char>>) -> Seq<Seq<char>> {
    v.map_values(|x: Vec<char>| x@)
}

/// The components of `path`.
pub fn components_of(path: &Vec<char>) -> (r: Vec<Vec<char>>)
    ensures
        char_views(r@) == components(path@),
{
    let pieces = split_fields(path, '/');
    let ghost f = fields(path@, '/');
    assert(char_views(pieces@) =~= f);
    let mut out: Vec<Vec<char>> = Vec::new();
    if path.len() > 0 && path[0] == '/' {
        let mut root: Vec<char> = Vec::new();
        root.push('/');
        out.push(root);
    }
    let ghost root_part = char_views(out@);
    assert(root_part == if path@.len() > 0 && path@[0] == '/' {
        seq![seq!['/']]
    } else {
        Seq::<Seq<char>>::empty()
    }) by {
        if path@.len() > 0 && path@[0] == '/' {
            assert(root_part =~= seq![seq!['/']]);
        } else {
            assert(root_part =~= Seq::<Seq<char>>::empty());
        }
    }
    let mut i: usize = 0;
    while i < pieces.len()
        invariant
            i <= pieces@.len(),
            char_views(pieces@) == f,
            char_views(out@) == root_part + kept_pieces(f.take(i as int)),
        decreases pieces.len() - i,
    {
        assert(f.take(i + 1).drop_last() == f.take(i as int));
        assert(f.take(i + 1).last() == pieces@[i as int]@);
        let p = &pieces[i];
        if p.len() > 0 && (!is_dot(p) || i == 0) {
            let ghost before = char_views(out@);
            let c = p.clone();
            assert(c@ == p@);
            out.push(c);
            assert(char_views(out@) =~= before.push(p@));
        }
        i += 1;
    }
    assert(f.take(pieces@.len() as int) == f);
    out
}

fn comps_start_with(c: &Vec<Vec<char>>, p: &Vec<Vec<char>>) -> (r: bool)
    ensures
        r == (char_views(p@).len() <= char_views(c@).len() && char_views(c@).take(
            char_views(p@).len() as int,
        ) == char_views(p@)),
{
    if p.len() > c.len() {
        return false;
    }
    let mut i: usize = 0;
    while i < p.len()
        invariant
            i <= p@.len() <= c@.len(),
            forall|j: int| 0 <= j < i ==> c@[j]@ == p@[j]@,
        decreases p.len() - i,
    {
        if !same_chars(&c[i], &p[i]) {
            assert(char_views(c@).take(p@.len() as int)[i as int] != char_views(p@)[i as int]);
            return false;
        }
        i += 1;
    }
    assert(char_views(c@).take(p@.len() as int) =~= char_views(p@));
    true
}

fn join_components(cs: &Vec<Vec<char>>, from: usize) -> (r: Vec<char>)
    requires
        from <= cs@.len(),
    ensures
        r@ == joined_components(char_views(cs@).skip(from as int)),
{
    let ghost v = char_views(cs@).skip(from as int);
    let mut out: Vec<char> = Vec::new();
    let mut i: usize = from;
    assert(v.take(0) =~= Seq::<Seq<char>>::empty());
    while i < cs.len()
        invariant
            from <= i <= cs@.len(),
            v == char_views(cs@).skip(from as int),
            out@ == joined_components(v.take(i - from)),
        decreases cs.len() - i,
    {
        assert(v.take(i + 1 - from).drop_last() == v.take(i - from));
        assert(v.take(i + 1 - from).last() == cs@[i as int]@);
        let is_root = out.len() == 1 && out[0] == '/';
        assert(is_root == (out@ == seq!['/'])) by {
            if out@ == seq!['/'] {
                assert(out@.len() == 1 && out@[0] == '/');
            }
            if is_root {
                assert(out@ =~= seq!['/']);
            }
        }
        if out.len() > 0 && !is_root {
            out.push('/');
        }
        append_chars(&mut out, &cs[i]);
        assert(out@ =~= joined_components(v.take(i + 1 - from)));
        i += 1;
    }
    assert(v.take(cs@.len() - from) == v);
    out
}

/// The characters of the name shown for `path`.
pub fn file_name_chars(path: &Vec<char>, strip: Option<&Vec<char>>) -> (r: Vec<char>)
    ensures
        r@ == file_name_text(
            path@,
            match strip {
                Some(p) => Some(p@),
                None => None,
            },
        ),
{
    let n = match strip {
        Some(p) => {
            let c = components_of(path);
            let pc = components_of(p);
            if comps_start_with(&c, &pc) {
                join_components(&c, pc.len())
            } else {
                path.clone()
            }
        },
        None => path.clone(),
    };
    if n.len() == 0 {
        let mut d: Vec<char> = Vec::new();
        d.push('.');
        assert(d@ =~= seq!['.']);
        d
    } else {
        n
    }
}

/// The name shown for `name`: the part after the directory `strip` when the
/// path lies inside it, else the whole path; `.` when nothing is left.
pub fn get_file_name(name: &str, strip: Option<&str>) -> (r: String)
    ensures
        r@ == file_name_text(
            name@,
            match strip {
                Some(p) => Some(p@),
                None => None,
            },
        ),
{
    let path = chars_of(name);
    let r = match strip {
        Some(p) => {
            let pv = chars_of(p);
            file_name_chars(&path, Some(&pv))
        },
        None => file_name_chars(&path, None),
    };
    string_of(&r)
}

/// `s` from position `k` on.
pub fn skip_chars(s: &Vec<char>, k: usize) -> (r: Vec<char>)
    requires
        k <= s@.len(),
    ensures
        r@ == s@.skip(k as int),
{
    let mut out: Vec<char> = Vec::new();
    let mut i: usize = k;
    while i < s.len()
        invariant
            k <= i <= s@.len(),
            out@ == s@.subrange(k as int, i as int),
        decreases s.len() - i,
    {
        out.push(s[i]);
        assert(s@.subrange(k as int, i + 1) == s@.subrange(k as int, i as int).push(s@[i as int]));
        i += 1;
    }
    assert(s@.subrange(k as int, s@.len() as int) == s@.skip(k as int));
    out
}

/// Index of the last `c` in `s`, if any.
pub open spec fn last_index_of(s: Seq<char>, c: char) -> Option<int>
    decreases s.len(),
{
    if s.len() == 0 {
        None
    } else if s.last() == c {
        Some(s.len() - 1)
    } else {
        last_index_of(s.drop_last(), c)
    }
}

/// `s` without its trailing `/` characters.
pub open spec fn trim_slashes(s: Seq<char>) -> Seq<char>
    decreases s.len(),
{
    if s.len() > 0 && s.last() == '/' {
        trim_slashes(s.drop_last())
    } else {
        s
    }
}

/// The last component of a path, trailing separators ignored.
pub open spec fn base_name(path: Seq<char>) -> Seq<char> {
    let t = trim_slashes(path);
    match last_index_of(t, '/') {
        Some(i) => t.skip(i + 1),
        None => t,
    }
}

/// The extension of a path: what follows the last `.` of its last
/// component, when that dot is not the component's first character; none
/// for `.` and `..`.
pub open spec fn extension(path: Seq<char>) -> Option<Seq<char>> {
    let b = base_name(path);
    if b == seq!['.', '.'] {
        None
    } else {
        match last_index_of(b, '.') {
            Some(i) => if i > 0 {
                Some(b.skip(i + 1))
            } else {
                None
            },
            None => None,
        }
    }
}

pub proof fn lemma_last_index_bounds(s: Seq<char>, c: char)
    ensures
        match last_index_of(s, c) {
            Some(i) => 0 <= i < s.len() && s[i] == c && forall|j: int|
                i < j < s.len() ==> s[j] != c,
            None => forall|j: int| 0 <= j < s.len() ==> s[j] != c,
        },
    decreases s.len(),
{
    if s.len() > 0 && s.last() != c {
        lemma_last_index_bounds(s.drop_last(), c);
        let d = s.drop_last();
        assert(forall|j: int| 0 <= j < d.len() ==> d[j] == s[j]);
    }
}

fn find_last(s: &Vec<char>, c: char) -> (r: Option<usize>)
    ensures
        match last_index_of(s@, c) {
            Some(i) => r == Some(i as usize),
            None => r is None,
        },
{
    let mut i: usize = s.len();
    assert(s@.take(s@.len() as int) == s@);
    while i > 0
        invariant
            i <= s@.len(),
            last_index_of(s@, c) == last_index_of(s@.take(i as int), c),
        decreases i,
    {
        assert(s@.take(i as int).drop_last() == s@.take(i - 1));
        if s[i - 1] == c {
            return Some(i - 1);
        }
        i -= 1;
    }
    None
}

fn trim_trailing(s: &Vec<char>) -> (r: Vec<char>)
    ensures
        r@ == trim_slashes(s@),
{
    let mut n: usize = s.len();
    assert(s@.take(s@.len() as int) == s@);
    while n > 0 && s[n - 1] == '/'
        invariant
            n <= s@.len(),
            trim_slashes(s@) == trim_slashes(s@.take(n as int)),
        decreases n,
    {
        assert(s@.take(n as int).drop_last() == s@.take(n - 1));
        n -= 1;
    }
    let mut out: Vec<char> = Vec::new();
    let mut i: usize = 0;
    while i < n
        invariant
            i <= n <= s@.len(),
            out@ == s@.take(i as int),
        decreases n - i,
    {
        out.push(s[i]);
        assert(s@.take(i + 1) == s@.take(i as int).push(s@[i as int]));
        i += 1;
    }
    out
}

/// The extension of `path`, as `Path::extension` gives it.
pub fn file_extension(path: &Vec<char>) -> (r: Option<Vec<char>>)
    ensures
        match extension(path@) {
            Some(x) => r is Some && r->0@ == x,
            None => r is None,
        },
{
    let t = trim_trailing(path);
    proof {
        lemma_last_index_bounds(trim_slashes(path@), '/');
    }
    let b = match find_last(&t, '/') {
        Some(i) => {
            let tl = t.len();
            assert(i < tl);
            skip_chars(&t, i + 1)
        },
        None => t,
    };
    assert(b@ == base_name(path@));
    if b.len() == 2 && b[0] == '.' && b[1] == '.' {
        assert(b@ =~= seq!['.', '.']);
        return None;
    }
    assert(b@ != seq!['.', '.']) by {
        if b@ == seq!['.', '.'] {
            assert(b@.len() == 2 && b@[0] == '.' && b@[1] == '.');
        }
    }
    proof {
        lemma_last_index_bounds(b@, '.');
    }
    match find_last(&b, '.') {
        Some(i) => if i > 0 {
            Some(skip_chars(&b, i + 1))
        } else {
            None
        },
        None => None,
    }
}

} // verus!
