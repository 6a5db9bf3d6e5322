//! Where settings and screenshots live, and the names of derived files.
use vstd::prelude::*;

use directories::{BaseDirs, UserDirs};

use crate::text::{chars_of, push_str, string_from_chars};

verus! {

/// The user's standard directories as `directories` finds them, held opaquely.
#[verifier::external_type_specification]
#[verifier::external_body]
pub struct ExBaseDirs(BaseDirs);

/// The user-facing directories as `directories` finds them, held opaquely.
#[verifier::external_type_specification]
#[verifier::external_body]
pub struct ExUserDirs(UserDirs);

/// A single path component that joins the same way on every platform: not
/// empty, not `.` or `..`, and free of separators and drive colons.
pub open spec fn plain_name(name: Seq<char>) -> bool {
    &&& name.len() > 0
    &&& name != "."@
    &&& name != ".."@
    &&& forall|i: int| 0 <= i < name.len() ==> #[trigger] name[i] != '/' && name[i] != '\\' && name[i] != ':'
}

pub open spec fn ends_with(s: Seq<char>, suffix: Seq<char>) -> bool {
    suffix.len() <= s.len() && s.subrange(s.len() - suffix.len(), s.len() as int) == suffix
}

pub open spec fn is_separator(c: char) -> bool {
    c == '/' || c == '\\'
}

/// A path that may be a Windows verbatim path (`\\?\`), onto which
/// joining normalizes the components; the test is loose: two separators
/// and `?`.
pub open spec fn verbatim_like(path: Seq<char>) -> bool {
    &&& path.len() >= 3
    &&& is_separator(path[0])
    &&& is_separator(path[1])
    &&& path[2] == '?'
}

/// `path` is `name` adjoined to `base` on a platform whose separator is
/// `sep`: the name alone for an empty base, appended directly when the base
/// already ends with a separator (`/` always is one) or, after a Windows
/// drive, possibly directly, and otherwise after `sep`.
pub open spec fn joins_sep(base: Seq<char>, name: Seq<char>, sep: char, path: Seq<char>) -> bool {
    if base.len() == 0 {
        path == name
    } else if base.last() == '/' || base.last() == sep {
        path == base + name
    } else if has_colon(base) {
        path == base + name || path == base + seq![sep] + name
    } else {
        path == base + seq![sep] + name
    }
}

/// `path` is `name` adjoined to `base`, with `/` or `\\` as the separator.
pub open spec fn joins(base: Seq<char>, name: Seq<char>, path: Seq<char>) -> bool {
    joins_sep(base, name, '/', path) || joins_sep(base, name, '\\', path)
}

/// `path` is `first` and then `second` adjoined to `base`, both with the
/// same separator `sep` (`/` or `\\`).
pub open spec fn joins_twice(base: Seq<char>, first: Seq<char>, second: Seq<char>, path: Seq<char>) -> bool {
    exists|sep: char, mid: Seq<char>| #![trigger joins_sep(base, first, sep, mid)]
        (sep == '/' || sep == '\\') && joins_sep(base, first, sep, mid) && joins_sep(mid, second, sep, path)
}

pub open spec fn has_colon(s: Seq<char>) -> bool {
    exists|i: int| 0 <= i < s.len() && s[i] == ':'
}

/// Where the last `c` in `s` is; -1 when there is none.
pub open spec fn last_index_of(s: Seq<char>, c: char) -> int
    decreases s.len(),
{
    if s.len() == 0 {
        -1
    } else if s.last() == c {
        s.len() - 1
    } else {
        last_index_of(s.drop_last(), c)
    }
}

pub proof fn lemma_last_index_range(s: Seq<char>, c: char)
    ensures
        -1 <= last_index_of(s, c) < s.len(),
        last_index_of(s, c) >= 0 ==> s[last_index_of(s, c)] == c,
        forall|j: int| last_index_of(s, c) < j < s.len() ==> s[j] != c,
    decreases s.len(),
{
    if s.len() > 0 && s.last() != c {
        lemma_last_index_range(s.drop_last(), c);
        assert forall|j: int| last_index_of(s, c) < j < s.len() implies s[j] != c by {
            if j < s.len() - 1 {
                assert(s[j] == s.drop_last()[j]);
            }
        }
    }
}

/// Plain names joined by single `/`s: no root, and no empty, `.` or `..`
/// part. Such a path has the same components on every platform.
pub open spec fn plain_path(s: Seq<char>) -> bool
    decreases s.len(),
{
    let k = last_index_of(s, '/');
    proof {
        lemma_last_index_range(s, '/');
    }
    if k < 0 {
        plain_name(s)
    } else {
        plain_path(s.take(k)) && plain_name(s.skip(k + 1))
    }
}

/// The parent of a path of names joined by `/`: the text before its last
/// `/`, the root `/` itself when that is the only `/` and comes first, and
/// empty for a single name.
pub open spec fn parent_text(s: Seq<char>) -> Seq<char> {
    let k = last_index_of(s, '/');
    if k < 0 {
        Seq::empty()
    } else if k == 0 {
        s.take(1)
    } else {
        s.take(k)
    }
}

/// The file name of a path of names joined by `/`: the text after its last `/`.
pub open spec fn file_name_text(s: Seq<char>) -> Seq<char> {
    s.skip(last_index_of(s, '/') + 1)
}

/// The stem of a file name: the text before its last `.`, or the whole name
/// when it has no `.` or only a leading one.
pub open spec fn stem_text(name: Seq<char>) -> Seq<char> {
    let d = last_index_of(name, '.');
    if d <= 0 {
        name
    } else {
        name.take(d)
    }
}

/// No character is a separator or a drive colon.
pub open spec fn no_separators(s: Seq<char>) -> bool {
    forall|i: int| 0 <= i < s.len() ==> #[trigger] s[i] != '/' && s[i] != '\\' && s[i] != ':'
}

proof fn lemma_plain_path_chars(s: Seq<char>)
    requires
        plain_path(s),
    ensures
        forall|i: int| 0 <= i < s.len() ==> #[trigger] s[i] != '\\' && s[i] != ':',
        s.len() > 0 && s[0] != '/',
        no_separators(file_name_text(s)),
        plain_name(file_name_text(s)),
        !verbatim_like(parent_text(s)),
        !has_colon(parent_text(s)),
        parent_text(s).len() > 0 ==> parent_text(s).last() != '/' && parent_text(s).last() != '\\',
    decreases s.len(),
{
    lemma_last_index_range(s, '/');
    let k = last_index_of(s, '/');
    if k < 0 {
        assert(s.skip(0) =~= s);
    } else {
        let head = s.take(k);
        let tail = s.skip(k + 1);
        lemma_plain_path_chars(head);
        assert forall|i: int| 0 <= i < s.len() implies #[trigger] s[i] != '\\' && s[i] != ':' by {
            if i < k {
                assert(s[i] == head[i]);
            } else if i > k {
                assert(s[i] == tail[i - k - 1]);
            }
        }
        lemma_last_index_range(head, '/');
        let hk = last_index_of(head, '/');
        let hname = head.skip(hk + 1);
        assert(hname.last() == head.last());
    }
}

proof fn lemma_stem_chars(name: Seq<char>)
    requires
        no_separators(name),
    ensures
        no_separators(stem_text(name)),
{
    lemma_last_index_range(name, '.');
    let d = last_index_of(name, '.');
    if d > 0 {
        assert forall|i: int| 0 <= i < name.take(d).len() implies #[trigger] name.take(d)[i] != '/' && name.take(d)[i] != '\\'
            && name.take(d)[i] != ':' by {
            assert(name.take(d)[i] == name[i]);
        }
    }
}

pub open spec fn drive_letter(s: Seq<char>) -> bool {
    &&& s.len() >= 2
    &&& s[1] == ':'
    &&& (('a' <= s[0] && s[0] <= 'z') || ('A' <= s[0] && s[0] <= 'Z'))
}

/// A path whose parent and file stem are the same on every platform:
/// plain names joined by `/`, possibly after a leading `/` (the root), or
/// after a drive such as `C:` or `C:/` when at least two names follow.
pub open spec fn portable_path(s: Seq<char>) -> bool {
    ||| plain_path(s)
    ||| (s.len() > 1 && s[0] == '/' && plain_path(s.skip(1)))
    ||| (drive_letter(s) && s.len() > 3 && s[2] == '/' && plain_path(s.skip(3)) && last_index_of(s.skip(3), '/') >= 0)
    ||| (drive_letter(s) && plain_path(s.skip(2)) && last_index_of(s.skip(2), '/') >= 0)
}

proof fn lemma_last_index_concat(a: Seq<char>, b: Seq<char>, c: char)
    ensures
        last_index_of(a + b, c) == if last_index_of(b, c) >= 0 {
            a.len() + last_index_of(b, c)
        } else {
            last_index_of(a, c)
        },
    decreases b.len(),
{
    if b.len() == 0 {
        assert(a + b =~= a);
    } else {
        assert((a + b).drop_last() =~= a + b.drop_last());
        assert((a + b).last() == b.last());
        lemma_last_index_concat(a, b.drop_last(), c);
    }
}

/// The parts of a portable path: its file name is a plain name, and its
/// parent is the text before the last `/` (the root when that is first).
proof fn lemma_portable_parts(s: Seq<char>)
    requires
        portable_path(s),
    ensures
        no_separators(file_name_text(s)),
        plain_name(file_name_text(s)),
        !verbatim_like(parent_text(s)),
{
    if plain_path(s) {
        lemma_plain_path_chars(s);
    } else {
        let j: int = if s[0] == '/' { 1 } else if s.len() > 3 && s[2] == '/' && plain_path(s.skip(3)) && last_index_of(s.skip(3), '/') >= 0 { 3 } else { 2 };
        let head = s.take(j);
        let t = s.skip(j);
        assert(s =~= head + t);
        lemma_plain_path_chars(t);
        lemma_last_index_range(t, '/');
        lemma_last_index_concat(head, t, '/');
        let kt = last_index_of(t, '/');
        if kt >= 0 {
            assert(file_name_text(s) =~= file_name_text(t));
            assert(parent_text(s)[0] == s[0]);
            if j == 1 {
                assert(kt >= 1);
                assert(parent_text(s)[1] == t[0]);
            }
        } else {
            assert(j == 1);
            assert(last_index_of(head, '/') == 0) by {
                assert(head.drop_last() =~= Seq::<char>::empty());
            }
            assert(file_name_text(s) =~= t);
            assert(t.skip(0) =~= t);
            assert(parent_text(s)[0] == '/');
        }
    }
}

/// `Path::join` of two relative components in turn, both with the
/// platform's separator.
///
/// For plain names the result ends with the second name, and, unless the
/// base may be a Windows verbatim path (onto which joining normalizes), it
/// is the base and the two names, each put after the platform's separator
/// (`/` or `\\`) unless what comes before already ends with one (or, on
/// Windows, is a bare drive).
#[verifier::external_body]
fn join_path_twice(base: &str, first: &str, second: &str) -> (joined: String)
    ensures
        plain_name(second@) ==> ends_with(joined@, second@),
        plain_name(first@) && plain_name(second@) && !verbatim_like(base@) ==> joins_twice(
            base@,
            first@,
            second@,
            joined@,
        ),
{
    std::path::Path::new(base).join(first).join(second).to_string_lossy().into_owned()
}

/// `Path::join` with a component.
///
/// Unless the base may be a Windows verbatim path (onto which joining
/// normalizes), the result always ends with the name: `PathBuf::push`
/// appends it, after emptying the path for an absolute name or one with a
/// prefix, and keeping only the prefix for a name with a root. For a plain
/// name the result ends with the name in any case, and, again unless the
/// base may be verbatim, it is the base, at most one separator, and the
/// name. Which separator, and whether one is put, depends on the platform
/// and on how `base` ends, and is not stated further.
#[verifier::external_body]
fn join_path(base: &str, name: &str) -> (joined: String)
    ensures
        plain_name(name@) ==> ends_with(joined@, name@),
        !verbatim_like(base@) ==> ends_with(joined@, name@),
        plain_name(name@) && !verbatim_like(base@) ==> joins(base@, name@, joined@),
{
    std::path::Path::new(base).join(name).to_string_lossy().into_owned()
}

/// `Path::parent`: the path without its last component, if it has one.
///
/// The parent is always a leading part of the path. For plain names joined
/// by `/` it is the text before the last `/` (empty for a single name), as
/// the documentation says: the path without its final component. Other
/// paths depend on the platform's separators and prefixes, which are not
/// restated.
#[verifier::external_body]
pub(crate) fn path_parent(path: &str) -> (up: Option<String>)
    ensures
        up matches Some(p) ==> p@.len() <= path@.len() && p@ == path@.subrange(0, p@.len() as int),
        portable_path(path@) ==> up is Some,
        up matches Some(p) ==> (portable_path(path@) ==> p@ == parent_text(path@)),
{
    match std::path::Path::new(path).parent() {
        Some(parent) => Some(parent.to_string_lossy().into_owned()),
        None => None,
    }
}

/// `Path::file_stem`: the last component without its extension, if there is one.
///
/// The stem is always a run of characters of the path, and holds no `/`,
/// a separator on every platform. For plain names joined by `/` it is, as
/// the documentation says, the last name before its final `.` (the whole
/// name when it has no `.` or only a leading one); for other paths where
/// it starts and ends depends on the platform and is not stated.
#[verifier::external_body]
fn path_file_stem(path: &str) -> (found: Option<String>)
    ensures
        found matches Some(s) ==> exists|i: int| 0 <= i && i + s@.len() <= path@.len() && #[trigger] path@.subrange(i, i + s@.len()) == s@,
        found matches Some(s) ==> forall|k: int| 0 <= k < s@.len() ==> #[trigger] s@[k] != '/',
        portable_path(path@) ==> found is Some,
        found matches Some(t) ==> (portable_path(path@) ==> t@ == stem_text(file_name_text(path@))),
{
    match std::path::Path::new(path).file_stem() {
        Some(stem) => Some(stem.to_string_lossy().into_owned()),
        None => None,
    }
}

/// `BaseDirs::new`: the user's standard directories, when a home directory
/// can be found. What it finds depends on the environment.
#[verifier::external_body]
fn base_dirs() -> (dirs: Option<BaseDirs>) {
    BaseDirs::new()
}

/// `BaseDirs::home_dir`: the user's home directory, as the environment gives it.
#[verifier::external_body]
fn home_dir(dirs: &BaseDirs) -> (home: String) {
    dirs.home_dir().to_string_lossy().into_owned()
}

/// `BaseDirs::config_dir`: the user's configuration directory, as the
/// environment gives it.
#[verifier::external_body]
fn config_dir(dirs: &BaseDirs) -> (dir: String) {
    dirs.config_dir().to_string_lossy().into_owned()
}

/// `UserDirs::new`: the user-facing directories, when a home directory can be
/// found. What it finds depends on the environment.
#[verifier::external_body]
fn user_dirs() -> (dirs: Option<UserDirs>) {
    UserDirs::new()
}

/// `UserDirs::picture_dir`: the user's pictures directory, if the platform names one.
#[verifier::external_body]
fn picture_dir(dirs: &UserDirs) -> (pictures: Option<String>) {
    match dirs.picture_dir() {
        Some(dir) => Some(dir.to_string_lossy().into_owned()),
        None => None,
    }
}

/// The settings file inside the user's config directory: `shotlite/config.toml`.
pub fn config_file_in(config_dir: &str) -> (path: String)
    ensures
        ends_with(path@, "config.toml"@),
        !verbatim_like(config_dir@) ==> joins_twice(config_dir@, "shotlite"@, "config.toml"@, path@),
{
    proof {
        reveal_strlit("shotlite");
        reveal_strlit("config.toml");
        reveal_strlit(".");
        reveal_strlit("..");
        assert("config.toml"@ =~= seq!['c', 'o', 'n', 'f', 'i', 'g', '.', 't', 'o', 'm', 'l']);
        assert(plain_name("config.toml"@));
        assert("shotlite"@ =~= seq!['s', 'h', 'o', 't', 'l', 'i', 't', 'e']);
        assert(plain_name("shotlite"@));
    }
    join_path_twice(config_dir, "shotlite", "config.toml")
}

/// The settings file: in `override_dir` when one is given (the
/// `SHOTLITE_CONFIG_DIR` variable), else in the user's config directory;
/// none when neither is known.
pub fn config_file(override_dir: Option<&str>) -> (path: Option<String>)
    ensures
        override_dir is Some ==> path is Some,
        path matches Some(p) ==> ends_with(p@, "config.toml"@),
        override_dir matches Some(d) ==> (!verbatim_like(d@) ==> (path matches Some(p) && joins_twice(
            d@,
            "shotlite"@,
            "config.toml"@,
            p@,
        ))),
{
    match override_dir {
        Some(dir) => Some(config_file_in(dir)),
        None => match base_dirs() {
            Some(dirs) => {
                let dir = config_dir(&dirs);
                Some(config_file_in(dir.as_str()))
            },
            None => None,
        },
    }
}

/// The default screenshot directory: `Screenshots` in the pictures
/// directory, else `Pictures/Screenshots` in the home directory, else none.
pub fn default_output_dir_from(picture_dir: Option<&str>, home_dir: Option<&str>) -> (dir: Option<String>)
    ensures
        (dir is Some) == (picture_dir is Some || home_dir is Some),
        dir matches Some(d) ==> ends_with(d@, "Screenshots"@),
        picture_dir matches Some(p) ==> (!verbatim_like(p@) ==> (dir matches Some(d) && joins(p@, "Screenshots"@, d@))),
        picture_dir is None ==> (home_dir matches Some(h) ==> (!verbatim_like(h@) ==> (dir matches Some(d)
            && joins_twice(h@, "Pictures"@, "Screenshots"@, d@)))),
{
    proof {
        reveal_strlit("Screenshots");
        reveal_strlit("Pictures");
        reveal_strlit(".");
        reveal_strlit("..");
        assert("Screenshots"@ =~= seq!['S', 'c', 'r', 'e', 'e', 'n', 's', 'h', 'o', 't', 's']);
        assert(plain_name("Screenshots"@));
        assert("Pictures"@ =~= seq!['P', 'i', 'c', 't', 'u', 'r', 'e', 's']);
        assert(plain_name("Pictures"@));
    }
    match picture_dir {
        Some(pictures) => Some(join_path(pictures, "Screenshots")),
        None => match home_dir {
            Some(home) => {
                Some(join_path_twice(home, "Pictures", "Screenshots"))
            },
            None => None,
        },
    }
}

/// The directory screenshots go to when none is configured: see
/// [`default_output_dir_from`]; `screenshots` when the user's directories
/// cannot be found.
pub fn default_output_dir() -> (dir: String)
    ensures
        dir@.len() > 0,
        ends_with(dir@, "Screenshots"@) || dir@ == "screenshots"@,
{
    proof {
        reveal_strlit("Screenshots");
        reveal_strlit("screenshots");
    }
    let pictures = match user_dirs() {
        Some(dirs) => picture_dir(&dirs),
        None => None,
    };
    let home = match base_dirs() {
        Some(dirs) => Some(home_dir(&dirs)),
        None => None,
    };
    let picture_ref: Option<&str> = match &pictures {
        Some(p) => Some(p.as_str()),
        None => None,
    };
    let home_ref: Option<&str> = match &home {
        Some(h) => Some(h.as_str()),
        None => None,
    };
    match default_output_dir_from(picture_ref, home_ref) {
        Some(dir) => dir,
        None => String::from_str("screenshots"),
    }
}

/// The name of a file written next to `input`: its stem (or `suffix` when it
/// has none), a dash, `suffix`, and `.png`.
pub open spec fn sibling_name(stem: Seq<char>, suffix: Seq<char>) -> Seq<char> {
    stem + seq!['-'] + suffix + ".png"@
}

/// The stem a derived file is named after: the input's file stem, which
/// never holds a `/`, or the suffix when the input has none.
pub open spec fn stem_choice(input: Seq<char>, suffix: Seq<char>, stem: Seq<char>) -> bool {
    ||| stem == suffix
    ||| (exists|i: int| 0 <= i && i + stem.len() <= input.len() && #[trigger] input.subrange(i, i + stem.len()) == stem)
        && (forall|k: int| 0 <= k < stem.len() ==> #[trigger] stem[k] != '/')
}

/// The path `<stem>-<suffix>.png` in the directory `parent`, given the
/// parent directory and file stem of an input file (`None` when it has
/// none: the file then lands in the current directory, named after the
/// suffix).
pub fn sibling_path_in(parent: Option<&str>, stem: Option<&str>, suffix: &str) -> (path: String)
    ensures
        ({
            let name = sibling_name(
                match stem {
                    Some(s) => s@,
                    None => suffix@,
                },
                suffix@,
            );
            &&& plain_name(name) ==> ends_with(path@, name)
            &&& (parent matches Some(p) ==> !verbatim_like(p@)) ==> ends_with(path@, name)
            &&& plain_name(name) && (parent matches Some(p) ==> p@.len() == 0) ==> path@ == name
            &&& parent matches Some(p) ==> (plain_name(name) && !verbatim_like(p@) ==> joins(p@, name, path@))
        }),
{
    let mut name: Vec<char> = match stem {
        Some(s) => chars_of(s),
        None => chars_of(suffix),
    };
    let ghost stem_text = name@;
    name.push('-');
    push_str(&mut name, suffix);
    push_str(&mut name, ".png");
    assert(name@ =~= sibling_name(stem_text, suffix@));
    let name_text = string_from_chars(&name);
    let base = match parent {
        Some(p) => p,
        None => "",
    };
    proof {
        reveal_strlit("");
    }
    assert(!verbatim_like(""@));
    join_path(base, name_text.as_str())
}

/// The path of a derived file next to `input`: `<stem>-<suffix>.png` in the
/// same directory. For an input of plain names joined by `/` the contract
/// gives the parent and the stem exactly. For other inputs they follow the
/// platform's path rules, which are not restated; unless the input may be
/// a Windows verbatim path, the path still ends with `<stem>-<suffix>.png`
/// for a stem drawn from the input (or the suffix, when it has none).
pub fn sibling_output_path(input: &str, suffix: &str) -> (path: String)
    ensures
        exists|stem: Seq<char>| #[trigger] stem_choice(input@, suffix@, stem)
            && (plain_name(sibling_name(stem, suffix@)) ==> ends_with(path@, sibling_name(stem, suffix@)))
            && (!verbatim_like(input@) ==> ends_with(path@, sibling_name(stem, suffix@))),
        portable_path(input@) && no_separators(suffix@) ==> joins(
            parent_text(input@),
            sibling_name(stem_text(file_name_text(input@)), suffix@),
            path@,
        ),
{
    let parent = path_parent(input);
    let stem = path_file_stem(input);
    let parent_ref: Option<&str> = match &parent {
        Some(p) => Some(p.as_str()),
        None => None,
    };
    let stem_ref: Option<&str> = match &stem {
        Some(s) => Some(s.as_str()),
        None => None,
    };
    let path = sibling_path_in(parent_ref, stem_ref, suffix);
    let ghost chosen = match stem_ref {
        Some(s) => s@,
        None => suffix@,
    };
    assert(stem_choice(input@, suffix@, chosen));
    proof {
        if let Some(p) = parent_ref {
            if p@.len() >= 3 {
                assert(p@[0] == input@[0] && p@[1] == input@[1] && p@[2] == input@[2]);
            }
        }
        if portable_path(input@) && no_separators(suffix@) {
            lemma_portable_parts(input@);
            lemma_stem_chars(file_name_text(input@));
            lemma_sibling_name_plain(stem_text(file_name_text(input@)), suffix@);
        }
    }
    path
}

proof fn lemma_sibling_name_plain(stem: Seq<char>, suffix: Seq<char>)
    requires
        no_separators(stem),
        no_separators(suffix),
    ensures
        plain_name(sibling_name(stem, suffix)),
{
    reveal_strlit(".png");
    reveal_strlit(".");
    reveal_strlit("..");
    let n = sibling_name(stem, suffix);
    assert(n.len() >= 5);
    assert forall|i: int| 0 <= i < n.len() implies #[trigger] n[i] != '/' && n[i] != '\\' && n[i] != ':' by {
        if i < stem.len() {
            assert(n[i] == stem[i]);
        } else if i == stem.len() {
        } else if i < stem.len() + 1 + suffix.len() {
            assert(n[i] == suffix[i - stem.len() - 1]);
        } else {
            assert(n[i] == ".png"@[i - stem.len() - 1 - suffix.len()]);
        }
    }
}

/// The default output of `redact`: `<stem>-redacted.png` next to the input.
pub fn default_output_path(input: &str) -> (path: String)
    ensures
        exists|stem: Seq<char>| #[trigger] stem_choice(input@, "redacted"@, stem)
            && (plain_name(sibling_name(stem, "redacted"@)) ==> ends_with(path@, sibling_name(stem, "redacted"@)))
            && (!verbatim_like(input@) ==> ends_with(path@, sibling_name(stem, "redacted"@))),
        portable_path(input@) ==> joins(parent_text(input@), sibling_name(stem_text(file_name_text(input@)), "redacted"@), path@),
{
    proof {
        reveal_strlit("redacted");
        assert("redacted"@ =~= seq!['r', 'e', 'd', 'a', 'c', 't', 'e', 'd']);
        assert(no_separators("redacted"@));
    }
    sibling_output_path(input, "redacted")
}

} // verus!
