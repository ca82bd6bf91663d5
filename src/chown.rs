//! Ownership changes: the `user:group` specification, the `--from` filter
//! and the ids a file ends up with.
use vstd::prelude::*;
use crate::colors::{fields, split_fields};
use crate::text::{append_chars, append_str, chars_of, string_of};

verus! {

pub const FTS_COMFOLLOW: u8 = 1;
pub const FTS_PHYSICAL: u8 = 2;
pub const FTS_LOGICAL: u8 = 4;

/// How much is reported.
#[derive(PartialEq, Eq, Structural, Clone, Copy, Debug)]
pub enum Verbosity {
    Silent,
    Changes,
    Verbose,
    Normal,
}

/// Which files are changed: all, or those with the given owner and/or group.
#[derive(PartialEq, Eq, Structural, Clone, Copy, Debug)]
pub enum IfFrom {
    All,
    User(u32),
    Group(u32),
    UserGroup(u32, u32),
}

/// How far paths are resolved.
#[derive(PartialEq, Eq, Structural, Clone, Copy, Debug)]
pub enum CanonicalizeMode {
    /// Lexical resolution only, no links followed.
    Lexical,
    Normal,
    Existing,
    Missing,
}

/// A configured ownership change.
pub struct Owner {
    pub dest_uid: Option<u32>,
    pub dest_gid: Option<u32>,
    pub bit_flag: u8,
    pub verbosity: Verbosity,
    pub filter: IfFrom,
    pub files: Vec<String>,
    pub recurse: bool,
    pub preserve_root: bool,
    pub dereference: bool,
}

/// Whether a file owned by `uid`:`gid` passes the filter.
pub open spec fn filter_matches(f: IfFrom, uid: u32, gid: u32) -> bool {
    match f {
        IfFrom::All => true,
        IfFrom::User(u) => u == uid,
        IfFrom::Group(g) => g == gid,
        IfFrom::UserGroup(u, g) => u == uid && g == gid,
    }
}

impl Owner {
    /// Whether a file owned by `uid`:`gid` is to be changed.
    pub fn matched(&self, uid: u32, gid: u32) -> (r: bool)
        ensures
            r == filter_matches(self.filter, uid, gid),
    {
        match self.filter {
            IfFrom::All => true,
            IfFrom::User(u) => u == uid,
            IfFrom::Group(g) => g == gid,
            IfFrom::UserGroup(u, g) => u == uid && g == gid,
        }
    }

    /// The ids a file owned by `uid`:`gid` ends up with: the configured ones,
    /// keeping the current id where none is configured.
    pub fn dest_ids(&self, uid: u32, gid: u32) -> (r: (u32, u32))
        ensures
            r.0 == match self.dest_uid {
                Some(u) => u,
                None => uid,
            },
            r.1 == match self.dest_gid {
                Some(g) => g,
                None => gid,
            },
    {
        let u = match self.dest_uid {
            Some(u) => u,
            None => uid,
        };
        let g = match self.dest_gid {
            Some(g) => g,
            None => gid,
        };
        (u, g)
    }

    /// Whether the named files themselves are followed when they are links.
    pub fn follows_arguments(&self) -> (r: bool)
        ensures
            r == (self.dereference || self.bit_flag != FTS_PHYSICAL),
    {
        self.dereference || self.bit_flag != FTS_PHYSICAL
    }

    /// Whether links met while walking a tree are followed.
    pub fn follows_walk(&self) -> (r: bool)
        ensures
            r == (self.dereference || self.bit_flag & FTS_LOGICAL != 0),
    {
        self.dereference || self.bit_flag & FTS_LOGICAL != 0
    }
}

/// The form of an owner specification: only a user (no colon), only a
/// group (`:group`), both (`user:group`), or nothing to change.
pub enum SpecForm {
    UserOnly,
    GroupOnly,
    UserGroup,
    Unchanged,
}

pub open spec fn spec_form(spec: Seq<char>) -> SpecForm {
    let p = fields(spec, ':');
    if p.len() == 1 {
        SpecForm::UserOnly
    } else if p.len() == 2 && p[0].len() == 0 && p[1].len() != 0 {
        SpecForm::GroupOnly
    } else if p.len() == 2 && p[0].len() != 0 && p[1].len() != 0 {
        SpecForm::UserGroup
    } else {
        SpecForm::Unchanged
    }
}

/// The user and group names that a specification asks to look up.
pub open spec fn spec_names(spec: Seq<char>) -> (Option<Seq<char>>, Option<Seq<char>>) {
    let p = fields(spec, ':');
    match spec_form(spec) {
        SpecForm::UserOnly => (Some(p[0]), None),
        SpecForm::GroupOnly => (None, Some(p[1])),
        SpecForm::UserGroup => (Some(p[0]), Some(p[1])),
        SpecForm::Unchanged => (None, None),
    }
}

fn form_of(spec: &str) -> (r: (SpecForm, Vec<Vec<char>>))
    ensures
        r.0 == spec_form(spec@),
        r.1@.len() == fields(spec@, ':').len(),
        forall|i: int| 0 <= i < r.1@.len() ==> #[trigger] r.1@[i]@ == fields(spec@, ':')[i],
{
    let s = chars_of(spec);
    let p = split_fields(&s, ':');
    let f = if p.len() == 1 {
        SpecForm::UserOnly
    } else if p.len() == 2 && p[0].len() == 0 && p[1].len() != 0 {
        SpecForm::GroupOnly
    } else if p.len() == 2 && p[0].len() != 0 && p[1].len() != 0 {
        SpecForm::UserGroup
    } else {
        SpecForm::Unchanged
    };
    (f, p)
}

/// The names to look up for an owner specification: the user name when it
/// names a user, the group name when it names a group.
pub fn lookup_names(spec: &str) -> (r: (Option<String>, Option<String>))
    ensures
        match spec_names(spec@).0 {
            Some(u) => r.0 is Some && r.0->0@ == u,
            None => r.0 is None,
        },
        match spec_names(spec@).1 {
            Some(g) => r.1 is Some && r.1->0@ == g,
            None => r.1 is None,
        },
{
    let (f, p) = form_of(spec);
    match f {
        SpecForm::UserOnly => (Some(string_of(&p[0])), None),
        SpecForm::GroupOnly => (None, Some(string_of(&p[1]))),
        SpecForm::UserGroup => (Some(string_of(&p[0])), Some(string_of(&p[1]))),
        SpecForm::Unchanged => (None, None),
    }
}

/// `what: 'spec'`.
pub open spec fn invalid_text(what: Seq<char>, spec: Seq<char>) -> Seq<char> {
    what + seq![':', ' ', '\''] + spec + seq!['\'']
}

fn invalid(what: &str, spec: &str) -> (r: String)
    ensures
        r@ == invalid_text(what@, spec@),
{
    let mut v = chars_of(what);
    v.push(':');
    v.push(' ');
    v.push('\'');
    let s = chars_of(spec);
    append_chars(&mut v, &s);
    v.push('\'');
    assert(v@ =~= invalid_text(what@, spec@));
    string_of(&v)
}

pub open spec fn invalid_user() -> Seq<char> {
    seq!['i', 'n', 'v', 'a', 'l', 'i', 'd', ' ', 'u', 's', 'e', 'r']
}

pub open spec fn invalid_group() -> Seq<char> {
    seq!['i', 'n', 'v', 'a', 'l', 'i', 'd', ' ', 'g', 'r', 'o', 'u', 'p']
}

/// The ids an owner specification stands for, given what looking up its
/// names (see `lookup_names`) found: `uid` for the user name and `gid` for
/// the group name, `None` where the lookup failed or was not asked for. A
/// failed lookup of a name the specification holds is an error, the user
/// checked first.
pub fn parse_spec(spec: &str, uid: Option<u32>, gid: Option<u32>) -> (r: Result<
    (Option<u32>, Option<u32>),
    String,
>)
    ensures
        match spec_form(spec@) {
            SpecForm::UserOnly => match uid {
                Some(u) => r == Ok::<(Option<u32>, Option<u32>), String>((Some(u), None)),
                None => r is Err && r->Err_0@ == invalid_text(invalid_user(), spec@),
            },
            SpecForm::GroupOnly => match gid {
                Some(g) => r == Ok::<(Option<u32>, Option<u32>), String>((None, Some(g))),
                None => r is Err && r->Err_0@ == invalid_text(invalid_group(), spec@),
            },
            SpecForm::UserGroup => match (uid, gid) {
                (Some(u), Some(g)) => r == Ok::<(Option<u32>, Option<u32>), String>(
                    (Some(u), Some(g)),
                ),
                (None, _) => r is Err && r->Err_0@ == invalid_text(invalid_user(), spec@),
                (Some(_), None) => r is Err && r->Err_0@ == invalid_text(invalid_group(), spec@),
            },
            SpecForm::Unchanged => r == Ok::<(Option<u32>, Option<u32>), String>((None, None)),
        },
{
    proof {
        reveal_strlit("invalid user");
        reveal_strlit("invalid group");
    }
    assert("invalid user"@ =~= invalid_user());
    assert("invalid group"@ =~= invalid_group());
    let (f, _p) = form_of(spec);
    match f {
        SpecForm::UserOnly => match uid {
            Some(u) => Ok((Some(u), None)),
            None => Err(invalid("invalid user", spec)),
        },
        SpecForm::GroupOnly => match gid {
            Some(g) => Ok((None, Some(g))),
            None => Err(invalid("invalid group", spec)),
        },
        SpecForm::UserGroup => match uid {
            None => Err(invalid("invalid user", spec)),
            Some(u) => match gid {
                Some(g) => Ok((Some(u), Some(g))),
                None => Err(invalid("invalid group", spec)),
            },
        },
        SpecForm::Unchanged => Ok((None, None)),
    }
}

/// The lines reported after trying to give `path` the owner `to` (both
/// owners written `user:group`): on failure, unless silent, the error, and
/// when verbose the attempted change; on success, a change when changes or
/// everything are reported, and a kept owner when verbose.
pub open spec fn report_lines(
    v: Verbosity,
    path: Seq<char>,
    from: Seq<char>,
    to: Seq<char>,
    error: Option<Seq<char>>,
    changed: bool,
) -> Seq<Seq<char>> {
    match error {
        Some(e) => if v == Verbosity::Silent {
            Seq::empty()
        } else {
            let first = "changing ownership of '"@ + path + "': "@ + e;
            if v == Verbosity::Verbose {
                seq![
                    first,
                    "failed to change ownership of "@ + path + " from "@ + from + " to "@ + to,
                ]
            } else {
                seq![first]
            }
        },
        None => if changed {
            if v == Verbosity::Changes || v == Verbosity::Verbose {
                seq!["changed ownership of "@ + path + " from "@ + from + " to "@ + to]
            } else {
                Seq::empty()
            }
        } else if v == Verbosity::Verbose {
            seq!["ownership of "@ + path + " retained as "@ + to]
        } else {
            Seq::empty()
        },
    }
}

fn joined3(a: &str, b: &str, c: &str, d: &str, e: &str) -> (r: String)
    ensures
        r@ == a@ + b@ + c@ + d@ + e@,
{
    let mut v = chars_of(a);
    append_str(&mut v, b);
    append_str(&mut v, c);
    append_str(&mut v, d);
    append_str(&mut v, e);
    string_of(&v)
}

fn joined6(a: &str, b: &str, c: &str, d: &str, e: &str, f: &str) -> (r: String)
    ensures
        r@ == a@ + b@ + c@ + d@ + e@ + f@,
{
    let mut v = chars_of(a);
    append_str(&mut v, b);
    append_str(&mut v, c);
    append_str(&mut v, d);
    append_str(&mut v, e);
    append_str(&mut v, f);
    string_of(&v)
}

impl Owner {
    /// The lines to report for `path` after an ownership change from `from`
    /// to `to` that failed with `error`, or succeeded (`error` is `None`)
    /// and did or did not change the ids.
    pub fn report(&self, path: &str, from: &str, to: &str, error: Option<&str>, changed: bool) -> (r:
        Vec<String>)
        ensures
            r@.map_values(|l: String| l@) == report_lines(
                self.verbosity,
                path@,
                from@,
                to@,
                match error {
                    Some(e) => Some(e@),
                    None => None,
                },
                changed,
            ),
    {
        let mut out: Vec<String> = Vec::new();
        let v = self.verbosity;
        match error {
            Some(e) => {
                if v != Verbosity::Silent {
                    out.push(joined3("changing ownership of '", path, "': ", e, ""));
                    if v == Verbosity::Verbose {
                        out.push(joined6("failed to change ownership of ", path, " from ", from, " to ", to));
                    }
                }
            },
            None => {
                if changed {
                    if v == Verbosity::Changes || v == Verbosity::Verbose {
                        out.push(joined6("changed ownership of ", path, " from ", from, " to ", to));
                    }
                } else if v == Verbosity::Verbose {
                    out.push(joined3("ownership of ", path, " retained as ", to, ""));
                }
            },
        }
        proof {
            reveal_strlit("");
        }
        assert(""@ =~= Seq::<char>::empty());
        assert(out@.map_values(|l: String| l@) =~= report_lines(
            self.verbosity,
            path@,
            from@,
            to@,
            match error {
                Some(e) => Some(e@),
                None => None,
            },
            changed,
        ));
        out
    }
}

} // verus!
