//! The colour table: tags such as `dir`, `ln` or `*.tar` mapped to escape
//! code fragments, read from a colon-separated `tag=code` specification.
use vstd::prelude::*;
use crate::text::{chars_of, string_of, append_chars, same_chars};

verus! {

/// The table used when no specification is given.
pub const DEFAULT_COLORS: &'static str = "dir=01;94:no=00:fi=00:di=01;34:ln=01;36:pi=40;33:so=01;35:do=01;35:bd=40;33;01:cd=40;33;01:or=40;31;01:mi=01;05;37;41:su=37;41:sg=30;43:ca=30;41:tw=30;42:ow=34;42:st=37;44:ex=01;32:*.tar=01;31:*.tgz=01;31:*.svgz=01;31:*.arj=01;31:*.taz=01;31:*.lzh=01;31:*.lzma=01;31:*.zip=01;31:*.z=01;31:*.Z=01;31:*.dz=01;31:*.gz=01;31:*.bz2=01;31:*.tbz2=01;31:*.bz=01;31:*.tz=01;31:*.deb=01;31:*.rpm=01;31:*.jar=01;31:*.rar=01;31:*.ace=01;31:*.zoo=01;31:*.cpio=01;31:*.7z=01;31:*.rz=01;31:*.jpg=01;35:*.jpeg=01;35:*.gif=01;35:*.bmp=01;35:*.pbm=01;35:*.pgm=01;35:*.ppm=01;35:*.tga=01;35:*.xbm=01;35:*.xpm=01;35:*.tif=01;35:*.tiff=01;35:*.png=01;35:*.mng=01;35:*.pcx=01;35:*.mov=01;35:*.mpg=01;35:*.mpeg=01;35:*.m2v=01;35:*.ogm=01;35:*.mp4=01;35:*.m4v=01;35:*.mp4v=01;35:*.vob=01;35:*.qt=01;35:*.nuv=01;35:*.wmv=01;35:*.asf=01;35:*.rm=01;35:*.rmvb=01;35:*.flc=01;35:*.avi=01;35:*.fli=01;35:*.gl=01;35:*.dl=01;35:*.xcf=01;35:*.xwd=01;35:*.yuv=01;35:*.svg=01;35:*.aac=00;36:*.au=00;36:*.flac=00;36:*.mid=00;36:*.midi=00;36:*.mka=00;36:*.mp3=00;36:*.mpc=00;36:*.ogg=00;36:*.ra=00;36:*.wav=00;36:*.mkv=1;31:*.conf=1;93:*.d=0;33;40:*.rlib=0;33;40:*.txt=1;93:*.log=1;93:*.php=1;31;40:*.js=1;32;40:*.bin=1;32;40:*.asm=1;31;40:*.json=1;93:*.html=0;35;40:*.xml=0;35;40:*.yaml=0;35;40:*.toml=0;35;40:*.shtml=0;35;40:*.ini=1;33:*.sh=1;32;40:*.lua=1;32:*.css=0;36;40:*.scss=0;36;40:*.less=0;36;40:*.c=1;93:*.h=1;31:*.cpp=1;32;40:*.rs=1;31:*.rb=1;31:*.py=1;31;40:*.pl=1;32;40:*.md=1;93:*.rtf=1;93;40:*.o=0;33;40:*.so=0;33;40:*.lock=1;93:*.yml=0;35;40";

/// `s` cut at every `sep`, as `str::split` does: `n` separators give `n + 1`
/// fields, some of them possibly empty.
pub open spec fn fields(s: Seq<char>, sep: char) -> Seq<Seq<char>>
    decreases s.len(),
{
    if s.len() == 0 {
        seq![Seq::<char>::empty()]
    } else {
        let f = fields(s.drop_last(), sep);
        if s.last() == sep {
            f.push(Seq::<char>::empty())
        } else {
            f.update(f.len() - 1, f.last().push(s.last()))
        }
    }
}

/// The map that a sequence of `tag=code` items gives: items without exactly
/// one `=` are ignored, and a later item for a tag replaces an earlier one.
pub open spec fn items_map(items: Seq<Seq<char>>) -> Map<Seq<char>, Seq<char>>
    decreases items.len(),
{
    if items.len() == 0 {
        Map::empty()
    } else {
        let m = items_map(items.drop_last());
        let parts = fields(items.last(), '=');
        if parts.len() == 2 {
            m.insert(parts[0], parts[1])
        } else {
            m
        }
    }
}

/// The map of a sequence of pairs, later pairs replacing earlier ones.
pub open spec fn pairs_map(p: Seq<(Seq<char>, Seq<char>)>) -> Map<Seq<char>, Seq<char>>
    decreases p.len(),
{
    if p.len() == 0 {
        Map::empty()
    } else {
        pairs_map(p.drop_last()).insert(p.last().0, p.last().1)
    }
}

pub open spec fn tag_dir() -> Seq<char> {
    seq!['d', 'i', 'r']
}

pub open spec fn dir_code() -> Seq<char> {
    seq!['0', '1', ';', '9', '4']
}

/// Pairs after position `i` whose tag differs from `k` do not change what
/// the map holds for `k`.
pub proof fn lemma_pairs_map_suffix(p: Seq<(Seq<char>, Seq<char>)>, i: int, k: Seq<char>)
    requires
        0 <= i <= p.len(),
        forall|j: int| i <= j < p.len() ==> (#[trigger] p[j]).0 != k,
    ensures
        pairs_map(p).contains_key(k) == pairs_map(p.take(i)).contains_key(k),
        pairs_map(p).contains_key(k) ==> pairs_map(p)[k] == pairs_map(p.take(i))[k],
    decreases p.len(),
{
    if p.len() > i {
        lemma_pairs_map_suffix(p.drop_last(), i, k);
        assert(p.drop_last().take(i) == p.take(i));
    } else {
        assert(p.take(i) == p);
    }
}

/// The tag map of a specification text; directories are always coloured
/// with `01;94`.
pub open spec fn spec_map(text: Seq<char>) -> Map<Seq<char>, Seq<char>> {
    items_map(fields(text, ':')).insert(tag_dir(), dir_code())
}

/// The code of `tag` in `m`, or `default`.
pub open spec fn code_or(m: Map<Seq<char>, Seq<char>>, tag: Seq<char>, default: Seq<char>) -> Seq<
    char,
> {
    if m.contains_key(tag) {
        m[tag]
    } else {
        default
    }
}

/// The abstract colour table: the tag map and the four framing codes.
pub struct ColorView {
    pub map: Map<Seq<char>, Seq<char>>,
    pub left: Seq<char>,
    pub right: Seq<char>,
    pub end: Seq<char>,
    pub reset: Seq<char>,
}

/// The table that a specification text describes: left (`lc`, default
/// ESC `[`), right (`rc`, default `m`), end (`ec`, default empty) and reset
/// (`rs`, default `0`).
pub open spec fn spec_table(text: Seq<char>) -> ColorView {
    let m = spec_map(text);
    ColorView {
        map: m,
        left: code_or(m, seq!['l', 'c'], seq!['\x1b', '[']),
        right: code_or(m, seq!['r', 'c'], seq!['m']),
        end: code_or(m, seq!['e', 'c'], Seq::<char>::empty()),
        reset: code_or(m, seq!['r', 's'], seq!['0']),
    }
}

/// The tag actually looked up: an absent `or` falls back to `ln`, an absent
/// `mi` to `fi`.
pub open spec fn effective_tag(m: Map<Seq<char>, Seq<char>>, tag: Seq<char>) -> Seq<char> {
    if !m.contains_key(tag) && tag == seq!['o', 'r'] {
        seq!['l', 'n']
    } else if !m.contains_key(tag) && tag == seq!['m', 'i'] {
        seq!['f', 'i']
    } else {
        tag
    }
}

/// `name` wrapped in the escape sequence of `tag`, or unchanged when the tag
/// (after the fallbacks) has no code.
pub open spec fn colored(t: ColorView, name: Seq<char>, tag: Seq<char>) -> Seq<char> {
    let e = effective_tag(t.map, tag);
    if t.map.contains_key(e) {
        t.left + t.map[e] + t.right + name + t.end + t.left + t.reset + t.right
    } else {
        name
    }
}

/// A requested `or` that the table lacks is coloured as `ln`, and a requested
/// `mi` that it lacks as `fi`; a tag absent along with its fallback leaves the
/// name unchanged.
pub proof fn lemma_color_fallbacks(t: ColorView, name: Seq<char>, tag: Seq<char>)
    ensures
        !t.map.contains_key(seq!['o', 'r']) ==> colored(t, name, seq!['o', 'r']) == colored(
            t,
            name,
            seq!['l', 'n'],
        ),
        !t.map.contains_key(seq!['m', 'i']) ==> colored(t, name, seq!['m', 'i']) == colored(
            t,
            name,
            seq!['f', 'i'],
        ),
        !t.map.contains_key(effective_tag(t.map, tag)) ==> colored(t, name, tag) == name,
{
    assert(seq!['o', 'r'] != seq!['m', 'i']) by {
        assert(seq!['o', 'r'][0] != seq!['m', 'i'][0]);
    }
    assert(seq!['l', 'n'] != seq!['o', 'r']) by {
        assert(seq!['l', 'n'][0] != seq!['o', 'r'][0]);
    }
    assert(seq!['l', 'n'] != seq!['m', 'i']) by {
        assert(seq!['l', 'n'][0] != seq!['m', 'i'][0]);
    }
    assert(seq!['f', 'i'] != seq!['o', 'r']) by {
        assert(seq!['f', 'i'][0] != seq!['o', 'r'][0]);
    }
    assert(seq!['f', 'i'] != seq!['m', 'i']) by {
        assert(seq!['f', 'i'][0] != seq!['m', 'i'][0]);
    }
}

/// Splits `s` at every `sep`.
pub fn split_fields(s: &Vec<char>, sep: char) -> (r: Vec<Vec<char>>)
    ensures
        r@.len() == fields(s@, sep).len(),
        forall|i: int| 0 <= i < r@.len() ==> #[trigger] r@[i]@ == fields(s@, sep)[i],
{
    let mut done: Vec<Vec<char>> = Vec::new();
    let mut cur: Vec<char> = Vec::new();
    let mut i: usize = 0;
    while i < s.len()
        invariant
            i <= s@.len(),
            done@.len() + 1 == fields(s@.take(i as int), sep).len(),
            forall|j: int| 0 <= j < done@.len() ==> #[trigger] done@[j]@ == fields(
                s@.take(i as int),
                sep,
            )[j],
            cur@ == fields(s@.take(i as int), sep).last(),
        decreases s.len() - i,
    {
        let c = s[i];
        assert(s@.take(i + 1).drop_last() == s@.take(i as int));
        if c == sep {
            done.push(cur);
            cur = Vec::new();
        } else {
            cur.push(c);
        }
        i += 1;
    }
    assert(s@.take(s.len() as int) == s@);
    done.push(cur);
    done
}

/// A colour table, built once per run and only read afterwards.
pub struct ColorTable {
    pairs: Vec<(Vec<char>, Vec<char>)>,
    left: Vec<char>,
    right: Vec<char>,
    end: Vec<char>,
    reset: Vec<char>,
}

impl ColorTable {
    pub closed spec fn pair_view(&self) -> Seq<(Seq<char>, Seq<char>)> {
        self.pairs@.map_values(|p: (Vec<char>, Vec<char>)| (p.0@, p.1@))
    }

    pub closed spec fn view(&self) -> ColorView {
        ColorView {
            map: pairs_map(self.pair_view()),
            left: self.left@,
            right: self.right@,
            end: self.end@,
            reset: self.reset@,
        }
    }

    /// The code of `tag`, when the table has one.
    fn lookup(&self, tag: &Vec<char>) -> (r: Option<Vec<char>>)
        ensures
            r is Some <==> pairs_map(self.pair_view()).contains_key(tag@),
            r is Some ==> r->0@ == pairs_map(self.pair_view())[tag@],
    {
        let ghost pv = self.pair_view();
        let mut i: usize = self.pairs.len();
        while i > 0
            invariant
                i <= self.pairs@.len(),
                pv == self.pair_view(),
                forall|j: int| i <= j < pv.len() ==> (#[trigger] pv[j]).0 != tag@,
            decreases i,
        {
            if same_chars(&self.pairs[i - 1].0, tag) {
                let c = self.pairs[i - 1].1.clone();
                proof {
                    lemma_pairs_map_suffix(pv, i as int, tag@);
                    assert(pv.take(i as int).drop_last() == pv.take(i - 1));
                }
                return Some(c);
            }
            i -= 1;
        }
        proof {
            lemma_pairs_map_suffix(pv, 0, tag@);
        }
        None
    }

    fn code_or(&self, tag: &str, default: &str) -> (r: Vec<char>)
        ensures
            r@ == code_or(pairs_map(self.pair_view()), tag@, default@),
    {
        let t = chars_of(tag);
        match self.lookup(&t) {
            Some(c) => c,
            None => chars_of(default),
        }
    }

    /// The table that the specification text `text` describes.
    pub fn parse(text: &str) -> (t: ColorTable)
        ensures
            t.view() == spec_table(text@),
    {
        let s = chars_of(text);
        let items = split_fields(&s, ':');
        let mut pairs: Vec<(Vec<char>, Vec<char>)> = Vec::new();
        let mut i: usize = 0;
        while i < items.len()
            invariant
                i <= items@.len(),
                items@.len() == fields(text@, ':').len(),
                forall|j: int| 0 <= j < items@.len() ==> #[trigger] items@[j]@ == fields(text@, ':')[j],
                pairs_map(pairs@.map_values(|p: (Vec<char>, Vec<char>)| (p.0@, p.1@))) == items_map(
                    fields(text@, ':').take(i as int),
                ),
            decreases items.len() - i,
        {
            let ghost f = fields(text@, ':');
            let ghost before = pairs@;
            assert(f.take(i + 1).drop_last() == f.take(i as int));
            assert(f.take(i + 1).last() == items@[i as int]@);
            let parts = split_fields(&items[i], '=');
            if parts.len() == 2 {
                let k = parts[0].clone();
                let v = parts[1].clone();
                pairs.push((k, v));
                assert(pairs@.map_values(|p: (Vec<char>, Vec<char>)| (p.0@, p.1@)).drop_last()
                    == before.map_values(|p: (Vec<char>, Vec<char>)| (p.0@, p.1@)));
            }
            i += 1;
        }
        assert(fields(text@, ':').take(items@.len() as int) == fields(text@, ':'));
        let ghost before = pairs@;
        proof {
            reveal_strlit("dir");
            reveal_strlit("01;94");
        }
        assert("dir"@ =~= tag_dir());
        assert("01;94"@ =~= dir_code());
        pairs.push((chars_of("dir"), chars_of("01;94")));
        assert(pairs@.map_values(|p: (Vec<char>, Vec<char>)| (p.0@, p.1@)).drop_last()
            == before.map_values(|p: (Vec<char>, Vec<char>)| (p.0@, p.1@)));
        assert(pairs_map(pairs@.map_values(|p: (Vec<char>, Vec<char>)| (p.0@, p.1@))) == spec_map(
            text@,
        ));
        let t0 = ColorTable {
            pairs,
            left: Vec::new(),
            right: Vec::new(),
            end: Vec::new(),
            reset: Vec::new(),
        };
        proof {
            reveal_strlit("lc");
            reveal_strlit("rc");
            reveal_strlit("ec");
            reveal_strlit("rs");
            reveal_strlit("\x1b[");
            reveal_strlit("m");
            reveal_strlit("");
            reveal_strlit("0");
        }
        assert("lc"@ =~= seq!['l', 'c']);
        assert("rc"@ =~= seq!['r', 'c']);
        assert("ec"@ =~= seq!['e', 'c']);
        assert("rs"@ =~= seq!['r', 's']);
        assert("\x1b["@ =~= seq!['\x1b', '[']);
        assert("m"@ =~= seq!['m']);
        assert(""@ =~= Seq::<char>::empty());
        assert("0"@ =~= seq!['0']);
        let left = t0.code_or("lc", "\x1b[");
        let right = t0.code_or("rc", "m");
        let end = t0.code_or("ec", "");
        let reset = t0.code_or("rs", "0");
        ColorTable { pairs: t0.pairs, left, right, end, reset }
    }

    /// The table of the specification text, or of the built-in defaults when
    /// there is none.
    pub fn from_spec(text: Option<&str>) -> (t: ColorTable)
        ensures
            t.view() == spec_table(
                match text {
                    Some(s) => s@,
                    None => DEFAULT_COLORS@,
                },
            ),
    {
        match text {
            Some(s) => ColorTable::parse(s),
            None => ColorTable::parse(DEFAULT_COLORS),
        }
    }
}

/// Wraps `name` in the escape sequence of the colour tag `typ`: left code,
/// tag code, right code, name, end code, then left, reset and right codes.
/// An absent `or` is looked up as `ln`, an absent `mi` as `fi`; a tag that
/// is still absent leaves the name as it is.
pub fn color_name(name: String, typ: &str, colors: &ColorTable) -> (r: String)
    ensures
        r@ == colored(colors.view(), name@, typ@),
{
    let n = chars_of(name.as_str());
    let r = color_chars(n, typ, colors);
    string_of(&r)
}

/// `color_name` on character vectors.
pub fn color_chars(name: Vec<char>, typ: &str, colors: &ColorTable) -> (r: Vec<char>)
    ensures
        r@ == colored(colors.view(), name@, typ@),
{
    let mut tag = chars_of(typ);
    proof {
        reveal_strlit("or");
        reveal_strlit("mi");
        reveal_strlit("ln");
        reveal_strlit("fi");
    }
    assert("or"@ =~= seq!['o', 'r']);
    assert("mi"@ =~= seq!['m', 'i']);
    assert("ln"@ =~= seq!['l', 'n']);
    assert("fi"@ =~= seq!['f', 'i']);
    let or_tag = chars_of("or");
    let mi_tag = chars_of("mi");
    if colors.lookup(&tag).is_none() {
        if same_chars(&tag, &or_tag) {
            tag = chars_of("ln");
        } else if same_chars(&tag, &mi_tag) {
            tag = chars_of("fi");
        }
    }
    assert(tag@ == effective_tag(colors.view().map, typ@));
    match colors.lookup(&tag) {
        Some(code) => {
            let mut out: Vec<char> = Vec::new();
            append_chars(&mut out, &colors.left);
            append_chars(&mut out, &code);
            append_chars(&mut out, &colors.right);
            append_chars(&mut out, &name);
            append_chars(&mut out, &colors.end);
            append_chars(&mut out, &colors.left);
            append_chars(&mut out, &colors.reset);
            append_chars(&mut out, &colors.right);
            out
        },
        None => name,
    }
}

} // verus!
