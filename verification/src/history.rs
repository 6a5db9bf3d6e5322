//! Recent screenshots: their order, how many are listed, and one-based selection.
use vstd::prelude::*;

use crate::text::{chars_of, decimal, push_decimal, push_str, string_from_chars};

verus! {

/// What to do with a listed screenshot, by its one-based position.
#[derive(Clone, Copy, Debug, PartialEq, Eq, Structural)]
pub enum HistoryAction {
    Open(usize),
    Reveal(usize),
}

/// Why the history could not be listed or an entry could not be chosen.
#[derive(Debug)]
pub enum HistoryError {
    MissingOutputDir(String),
    ReadDir { path: String, reason: String },
    ZeroIndex,
    IndexOutOfRange { index: usize, available: usize },
}

/// A modification time: whole seconds since the Unix epoch (negative before
/// it) and the nanoseconds past that second.
#[derive(Clone, Copy, Debug, PartialEq, Eq, Structural)]
pub struct FileTime {
    pub seconds: i64,
    pub nanos: u32,
}

/// A screenshot file and when it was last modified, if that is known.
#[derive(Debug)]
pub struct HistoryEntry {
    pub path: String,
    pub modified: Option<FileTime>,
}

impl HistoryEntry {
    pub fn new(path: String, modified: Option<FileTime>) -> (e: HistoryEntry)
        ensures
            e.path == path,
            e.modified == modified,
    {
        HistoryEntry { path, modified }
    }
}

/// `a` is strictly earlier than `b`.
pub open spec fn time_lt(a: FileTime, b: FileTime) -> bool {
    a.seconds < b.seconds || (a.seconds == b.seconds && a.nanos < b.nanos)
}

/// Modification times ordered with an unknown time first.
pub open spec fn modified_lt(a: Option<FileTime>, b: Option<FileTime>) -> bool {
    match (a, b) {
        (None, Some(_)) => true,
        (Some(x), Some(y)) => time_lt(x, y),
        _ => false,
    }
}

/// Text order: character by character, a proper prefix first.
pub open spec fn text_lt(a: Seq<char>, b: Seq<char>) -> bool
    decreases a.len(),
{
    if b.len() == 0 {
        false
    } else if a.len() == 0 {
        true
    } else if a[0] != b[0] {
        a[0] < b[0]
    } else {
        text_lt(a.drop_first(), b.drop_first())
    }
}

/// One component of a path, as `std::path::Component` names them (there
/// are no prefixes: `/` is the separator).
pub enum PathPart {
    RootDir,
    CurDir,
    ParentDir,
    Normal(Seq<char>),
}

/// Where the first `/` of `s` is (its length when there is none).
pub open spec fn first_slash(s: Seq<char>) -> int
    decreases s.len(),
{
    if s.len() == 0 || s[0] == '/' {
        0
    } else {
        1 + first_slash(s.drop_first())
    }
}

/// `first_slash` finds the first `/`, or the end of the text.
pub proof fn lemma_first_slash_range(s: Seq<char>)
    ensures
        0 <= first_slash(s) <= s.len(),
        first_slash(s) < s.len() ==> s[first_slash(s)] == '/',
        forall|j: int| 0 <= j < first_slash(s) ==> s[j] != '/',
    decreases s.len(),
{
    if s.len() > 0 && s[0] != '/' {
        lemma_first_slash_range(s.drop_first());
        assert forall|j: int| 0 <= j < first_slash(s) implies s[j] != '/' by {
            if j > 0 {
                assert(s[j] == s.drop_first()[j - 1]);
            }
        }
    }
}

proof fn lemma_first_slash_at(s: Seq<char>, k: int)
    requires
        0 <= k <= s.len(),
        forall|j: int| 0 <= j < k ==> s[j] != '/',
        k == s.len() || s[k] == '/',
    ensures
        first_slash(s) == k,
    decreases k,
{
    if k > 0 {
        lemma_first_slash_at(s.drop_first(), k - 1);
    }
}

/// The component one segment between separators stands for: none for an
/// empty segment or `.`, `ParentDir` for `..`.
pub open spec fn segment_part(seg: Seq<char>) -> Seq<PathPart> {
    if seg.len() == 0 || seg == seq!['.'] {
        Seq::empty()
    } else if seg == seq!['.', '.'] {
        seq![PathPart::ParentDir]
    } else {
        seq![PathPart::Normal(seg)]
    }
}

/// The components of the text after a path's beginning: its segments
/// between `/`s, with empty and `.` segments left out.
pub open spec fn body_parts(s: Seq<char>) -> Seq<PathPart>
    decreases s.len(),
{
    if s.len() == 0 {
        Seq::empty()
    } else {
        let k = first_slash(s);
        proof {
            lemma_first_slash_range(s);
        }
        if k < s.len() {
            segment_part(s.take(k)) + body_parts(s.skip(k + 1))
        } else {
            segment_part(s)
        }
    }
}

/// `Path::components` with `/` as the separator: a leading `/` is the root,
/// a leading `.` segment is kept as `CurDir`, and after that empty and `.`
/// segments are left out.
pub open spec fn path_parts(s: Seq<char>) -> Seq<PathPart> {
    if s.len() > 0 && s[0] == '/' {
        seq![PathPart::RootDir] + body_parts(s.skip(1))
    } else if s.len() > 0 && s[0] == '.' && (s.len() == 1 || s[1] == '/') {
        seq![PathPart::CurDir] + body_parts(s.skip(1))
    } else {
        body_parts(s)
    }
}

pub open spec fn part_rank(p: PathPart) -> int {
    match p {
        PathPart::RootDir => 1,
        PathPart::CurDir => 2,
        PathPart::ParentDir => 3,
        PathPart::Normal(_) => 4,
    }
}

/// `Component`'s order: by kind, names by their text.
pub open spec fn part_lt(a: PathPart, b: PathPart) -> bool {
    match (a, b) {
        (PathPart::Normal(x), PathPart::Normal(y)) => text_lt(x, y),
        _ => part_rank(a) < part_rank(b),
    }
}

/// Lexicographic order of component lists, a proper prefix first.
pub open spec fn parts_lt(a: Seq<PathPart>, b: Seq<PathPart>) -> bool
    decreases a.len(),
{
    if b.len() == 0 {
        false
    } else if a.len() == 0 {
        true
    } else if a[0] != b[0] {
        part_lt(a[0], b[0])
    } else {
        parts_lt(a.drop_first(), b.drop_first())
    }
}

/// `Path`'s order: component by component.
pub open spec fn path_lt(a: Seq<char>, b: Seq<char>) -> bool {
    parts_lt(path_parts(a), path_parts(b))
}

/// `a` is listed before `b`: newer first, then by path.
pub open spec fn listed_before(a: HistoryEntry, b: HistoryEntry) -> bool {
    modified_lt(b.modified, a.modified) || (a.modified == b.modified && path_lt(a.path@, b.path@))
}

/// `a` may stand before `b` in a listing.
pub open spec fn may_precede(a: HistoryEntry, b: HistoryEntry) -> bool {
    !listed_before(b, a)
}

/// Neither entry is listed before the other: same time, same path components.
pub open spec fn ties(a: HistoryEntry, b: HistoryEntry) -> bool {
    !listed_before(a, b) && !listed_before(b, a)
}

/// `output` is `input` rearranged, `placed[k]` being where `output[k]` stood
/// in `input`, with tied entries in their input order.
pub open spec fn stable_arrangement(input: Seq<HistoryEntry>, output: Seq<HistoryEntry>, placed: Seq<int>) -> bool {
    &&& placed.len() == output.len()
    &&& forall|k: int| 0 <= k < output.len() ==> 0 <= #[trigger] placed[k] < input.len() && output[k] == input[placed[k]]
    &&& forall|p: int, q: int| 0 <= p < q < output.len() ==> #[trigger] placed[p] != #[trigger] placed[q]
    &&& forall|p: int, q: int| 0 <= p < q < output.len() && ties(#[trigger] output[p], #[trigger] output[q]) ==> placed[p] < placed[q]
}

/// Newest first, ties in path order.
pub open spec fn newest_first(s: Seq<HistoryEntry>) -> bool {
    forall|i: int, j: int| 0 <= i < j < s.len() ==> may_precede(#[trigger] s[i], #[trigger] s[j])
}

proof fn lemma_text_lt_irreflexive(a: Seq<char>)
    ensures
        !text_lt(a, a),
    decreases a.len(),
{
    if a.len() > 0 {
        lemma_text_lt_irreflexive(a.drop_first());
    }
}

proof fn lemma_text_lt_total(a: Seq<char>, b: Seq<char>)
    ensures
        text_lt(a, b) || text_lt(b, a) || a == b,
    decreases a.len(),
{
    if a.len() > 0 && b.len() > 0 && a[0] == b[0] {
        lemma_text_lt_total(a.drop_first(), b.drop_first());
        if a.drop_first() == b.drop_first() {
            assert(a =~= seq![a[0]] + a.drop_first());
            assert(b =~= seq![b[0]] + b.drop_first());
        }
    } else if a.len() == 0 && b.len() == 0 {
        assert(a =~= b);
    }
}

proof fn lemma_text_lt_transitive(a: Seq<char>, b: Seq<char>, c: Seq<char>)
    requires
        text_lt(a, b),
        text_lt(b, c),
    ensures
        text_lt(a, c),
    decreases a.len(),
{
    if a.len() > 0 && a[0] == b[0] && b[0] == c[0] {
        lemma_text_lt_transitive(a.drop_first(), b.drop_first(), c.drop_first());
    }
}

proof fn lemma_text_lt_asymmetric(a: Seq<char>, b: Seq<char>)
    requires
        text_lt(a, b),
    ensures
        !text_lt(b, a),
    decreases a.len(),
{
    if a.len() > 0 && a[0] == b[0] {
        lemma_text_lt_asymmetric(a.drop_first(), b.drop_first());
    }
}

proof fn lemma_part_lt_properties(a: PathPart, b: PathPart, c: PathPart)
    ensures
        !part_lt(a, a),
        part_lt(a, b) || part_lt(b, a) || a == b,
        part_lt(a, b) ==> !part_lt(b, a),
        part_lt(a, b) && part_lt(b, c) ==> part_lt(a, c),
{
    match (a, b, c) {
        (PathPart::Normal(x), PathPart::Normal(y), PathPart::Normal(z)) => {
            lemma_text_lt_irreflexive(x);
            lemma_text_lt_total(x, y);
            if text_lt(x, y) {
                lemma_text_lt_asymmetric(x, y);
                if text_lt(y, z) {
                    lemma_text_lt_transitive(x, y, z);
                }
            }
        },
        (PathPart::Normal(x), PathPart::Normal(y), _) => {
            lemma_text_lt_irreflexive(x);
            lemma_text_lt_total(x, y);
            if text_lt(x, y) {
                lemma_text_lt_asymmetric(x, y);
            }
        },
        (PathPart::Normal(x), _, _) => {
            lemma_text_lt_irreflexive(x);
        },
        _ => {},
    }
}

proof fn lemma_parts_lt_irreflexive(a: Seq<PathPart>)
    ensures
        !parts_lt(a, a),
    decreases a.len(),
{
    if a.len() > 0 {
        lemma_parts_lt_irreflexive(a.drop_first());
    }
}

proof fn lemma_parts_lt_total(a: Seq<PathPart>, b: Seq<PathPart>)
    ensures
        parts_lt(a, b) || parts_lt(b, a) || a == b,
    decreases a.len(),
{
    if a.len() > 0 && b.len() > 0 {
        if a[0] == b[0] {
            lemma_parts_lt_total(a.drop_first(), b.drop_first());
            if a.drop_first() == b.drop_first() {
                assert(a =~= seq![a[0]] + a.drop_first());
                assert(b =~= seq![b[0]] + b.drop_first());
            }
        } else {
            lemma_part_lt_properties(a[0], b[0], b[0]);
        }
    } else if a.len() == 0 && b.len() == 0 {
        assert(a =~= b);
    }
}

proof fn lemma_parts_lt_asymmetric(a: Seq<PathPart>, b: Seq<PathPart>)
    requires
        parts_lt(a, b),
    ensures
        !parts_lt(b, a),
    decreases a.len(),
{
    if a.len() > 0 && b.len() > 0 {
        if a[0] == b[0] {
            lemma_parts_lt_asymmetric(a.drop_first(), b.drop_first());
        } else {
            lemma_part_lt_properties(a[0], b[0], b[0]);
        }
    }
}

proof fn lemma_parts_lt_transitive(a: Seq<PathPart>, b: Seq<PathPart>, c: Seq<PathPart>)
    requires
        parts_lt(a, b),
        parts_lt(b, c),
    ensures
        parts_lt(a, c),
    decreases a.len(),
{
    if a.len() > 0 {
        lemma_part_lt_properties(a[0], b[0], c[0]);
        if a[0] == b[0] && b[0] == c[0] {
            lemma_parts_lt_transitive(a.drop_first(), b.drop_first(), c.drop_first());
        } else if a[0] == b[0] {
            lemma_part_lt_properties(b[0], c[0], c[0]);
        } else if b[0] == c[0] {
            lemma_part_lt_properties(a[0], b[0], b[0]);
        }
    }
}

/// `may_precede` is a total preorder: any two entries can be placed, and placement chains.
pub proof fn lemma_listing_order(a: HistoryEntry, b: HistoryEntry, c: HistoryEntry)
    ensures
        may_precede(a, b) || may_precede(b, a),
        listed_before(a, b) ==> may_precede(a, b),
        may_precede(a, b) && may_precede(b, c) ==> may_precede(a, c),
        listed_before(a, b) && may_precede(b, c) ==> listed_before(a, c),
        may_precede(a, b) && listed_before(b, c) ==> listed_before(a, c),
{
    let pa = path_parts(a.path@);
    let pb = path_parts(b.path@);
    let pc = path_parts(c.path@);
    lemma_parts_lt_total(pa, pb);
    lemma_parts_lt_total(pb, pc);
    lemma_parts_lt_total(pa, pc);
    lemma_parts_lt_irreflexive(pa);
    lemma_parts_lt_irreflexive(pb);
    if parts_lt(pa, pb) {
        lemma_parts_lt_asymmetric(pa, pb);
    }
    if parts_lt(pb, pc) {
        lemma_parts_lt_asymmetric(pb, pc);
    }
    if parts_lt(pa, pc) {
        lemma_parts_lt_asymmetric(pa, pc);
    }
    if parts_lt(pa, pb) && parts_lt(pb, pc) {
        lemma_parts_lt_transitive(pa, pb, pc);
    }
    if parts_lt(pc, pb) && parts_lt(pb, pa) {
        lemma_parts_lt_transitive(pc, pb, pa);
    }
}

fn time_less(a: FileTime, b: FileTime) -> (r: bool)
    ensures
        r == time_lt(a, b),
{
    a.seconds < b.seconds || (a.seconds == b.seconds && a.nanos < b.nanos)
}

fn modified_less(a: Option<FileTime>, b: Option<FileTime>) -> (r: bool)
    ensures
        r == modified_lt(a, b),
{
    match (a, b) {
        (None, Some(_)) => true,
        (Some(x), Some(y)) => time_less(x, y),
        _ => false,
    }
}

fn text_less(a: &Vec<char>, b: &Vec<char>) -> (r: bool)
    ensures
        r == text_lt(a@, b@),
{
    let mut i: usize = 0;
    assert(a@.skip(0) =~= a@);
    assert(b@.skip(0) =~= b@);
    assert(a@.take(0) =~= b@.take(0));
    while i < a.len() && i < b.len() && a[i] == b[i]
        invariant
            i <= a@.len(),
            i <= b@.len(),
            a@.take(i as int) == b@.take(i as int),
            text_lt(a@, b@) == text_lt(a@.skip(i as int), b@.skip(i as int)),
        decreases a@.len() - i,
    {
        proof {
            let sa = a@.skip(i as int);
            let sb = b@.skip(i as int);
            assert(sa.drop_first() =~= a@.skip(i + 1));
            assert(sb.drop_first() =~= b@.skip(i + 1));
            assert(a@.take(i + 1) =~= a@.take(i as int).push(a@[i as int]));
            assert(b@.take(i + 1) =~= b@.take(i as int).push(b@[i as int]));
        }
        i = i + 1;
    }
    let ghost sa = a@.skip(i as int);
    let ghost sb = b@.skip(i as int);
    if i == b.len() {
        assert(sb.len() == 0);
        false
    } else if i == a.len() {
        assert(sa.len() == 0);
        true
    } else {
        assert(sa[0] == a@[i as int] && sb[0] == b@[i as int]);
        a[i] < b[i]
    }
}

/// A path component as the comparison reads it.
enum PartOf {
    RootDir,
    CurDir,
    ParentDir,
    Normal(Vec<char>),
}

spec fn part_view(p: PartOf) -> PathPart {
    match p {
        PartOf::RootDir => PathPart::RootDir,
        PartOf::CurDir => PathPart::CurDir,
        PartOf::ParentDir => PathPart::ParentDir,
        PartOf::Normal(v) => PathPart::Normal(v@),
    }
}

spec fn parts_view(v: Seq<PartOf>) -> Seq<PathPart> {
    v.map_values(|p: PartOf| part_view(p))
}

proof fn lemma_body_step(s: Seq<char>, i: int, k: int)
    requires
        0 <= i <= k <= s.len(),
        i < s.len(),
        forall|j: int| i <= j < k ==> s[j] != '/',
        k == s.len() || s[k] == '/',
    ensures
        k < s.len() ==> body_parts(s.skip(i)) == segment_part(s.subrange(i, k)) + body_parts(s.skip(k + 1)),
        k == s.len() ==> body_parts(s.skip(i)) == segment_part(s.subrange(i, k)),
{
    let t = s.skip(i);
    assert forall|j: int| 0 <= j < k - i implies t[j] != '/' by {
        assert(t[j] == s[i + j]);
    }
    if k < s.len() {
        assert(t[k - i] == s[k]);
    }
    lemma_first_slash_at(t, k - i);
    assert(t.take(k - i) =~= s.subrange(i, k));
    if k < s.len() {
        assert(t.skip(k - i + 1) =~= s.skip(k + 1));
    } else {
        assert(t =~= s.subrange(i, k));
    }
}

/// The components of a path, as `path_parts` describes them.
fn path_parts_of(s: &Vec<char>) -> (parts: Vec<PartOf>)
    ensures
        parts_view(parts@) == path_parts(s@),
{
    let n = s.len();
    let mut parts: Vec<PartOf> = Vec::new();
    let mut i: usize = 0;
    if n > 0 && s[0] == '/' {
        parts.push(PartOf::RootDir);
        i = 1;
    } else if n > 0 && s[0] == '.' && (n == 1 || s[1] == '/') {
        parts.push(PartOf::CurDir);
        i = 1;
    }
    proof {
        assert(s@.skip(0) =~= s@);
        assert(parts_view(parts@) + body_parts(s@.skip(i as int)) =~= path_parts(s@));
    }
    while i < n
        invariant
            n == s@.len(),
            i <= n,
            parts_view(parts@) + body_parts(s@.skip(i as int)) == path_parts(s@),
        decreases n - i,
    {
        let mut k: usize = i;
        while k < n && s[k] != '/'
            invariant
                i <= k <= n,
                n == s@.len(),
                forall|j: int| i <= j < k ==> s@[j] != '/',
            decreases n - k,
        {
            k = k + 1;
        }
        let mut seg: Vec<char> = Vec::new();
        let mut m: usize = i;
        while m < k
            invariant
                i <= m <= k <= n,
                n == s@.len(),
                seg@ == s@.subrange(i as int, m as int),
            decreases k - m,
        {
            seg.push(s[m]);
            assert(s@.subrange(i as int, m + 1) =~= s@.subrange(i as int, m as int).push(s@[m as int]));
            m = m + 1;
        }
        proof {
            lemma_body_step(s@, i as int, k as int);
        }
        let ghost before = parts@;
        let ghost seg_text = seg@;
        if seg.len() == 0 || (seg.len() == 1 && seg[0] == '.') {
            assert(segment_part(seg_text) =~= Seq::<PathPart>::empty()) by {
                if seg_text.len() == 1 {
                    assert(seg_text =~= seq!['.']);
                }
            }
        } else if seg.len() == 2 && seg[0] == '.' && seg[1] == '.' {
            assert(seg_text =~= seq!['.', '.']);
            parts.push(PartOf::ParentDir);
        } else {
            assert(seg_text != seq!['.']);
            assert(seg_text != seq!['.', '.']);
            parts.push(PartOf::Normal(seg));
        }
        proof {
            assert(parts_view(parts@) =~= parts_view(before) + segment_part(seg_text));
        }
        if k < n {
            i = k + 1;
        } else {
            i = n;
            proof {
                assert(s@.skip(n as int) =~= Seq::<char>::empty());
            }
        }
        proof {
            assert(parts_view(parts@) + body_parts(s@.skip(i as int)) =~= path_parts(s@));
        }
    }
    proof {
        assert(s@.skip(n as int) =~= Seq::<char>::empty());
        assert(parts_view(parts@) =~= path_parts(s@));
    }
    parts
}

fn chars_equal(a: &Vec<char>, b: &Vec<char>) -> (r: bool)
    ensures
        r == (a@ == b@),
{
    if a.len() != b.len() {
        return false;
    }
    let mut i: usize = 0;
    while i < a.len()
        invariant
            a@.len() == b@.len(),
            i <= a@.len(),
            forall|j: int| 0 <= j < i ==> a@[j] == b@[j],
        decreases a@.len() - i,
    {
        if a[i] != b[i] {
            return false;
        }
        i = i + 1;
    }
    assert(a@ =~= b@);
    true
}

fn part_rank_of(p: &PartOf) -> (r: u8)
    ensures
        r == part_rank(part_view(*p)),
{
    match p {
        PartOf::RootDir => 1,
        PartOf::CurDir => 2,
        PartOf::ParentDir => 3,
        PartOf::Normal(_) => 4,
    }
}

fn part_equal(a: &PartOf, b: &PartOf) -> (r: bool)
    ensures
        r == (part_view(*a) == part_view(*b)),
{
    match (a, b) {
        (PartOf::Normal(x), PartOf::Normal(y)) => chars_equal(x, y),
        _ => part_rank_of(a) == part_rank_of(b),
    }
}

fn part_less(a: &PartOf, b: &PartOf) -> (r: bool)
    ensures
        r == part_lt(part_view(*a), part_view(*b)),
{
    match (a, b) {
        (PartOf::Normal(x), PartOf::Normal(y)) => text_less(x, y),
        _ => part_rank_of(a) < part_rank_of(b),
    }
}

fn parts_less(a: &Vec<PartOf>, b: &Vec<PartOf>) -> (r: bool)
    ensures
        r == parts_lt(parts_view(a@), parts_view(b@)),
{
    let ghost va = parts_view(a@);
    let ghost vb = parts_view(b@);
    let mut i: usize = 0;
    assert(va.skip(0) =~= va);
    assert(vb.skip(0) =~= vb);
    while i < a.len() && i < b.len() && part_equal(&a[i], &b[i])
        invariant
            va == parts_view(a@),
            vb == parts_view(b@),
            i <= a@.len(),
            i <= b@.len(),
            parts_lt(va, vb) == parts_lt(va.skip(i as int), vb.skip(i as int)),
        decreases a@.len() - i,
    {
        proof {
            let sa = va.skip(i as int);
            let sb = vb.skip(i as int);
            assert(sa.drop_first() =~= va.skip(i + 1));
            assert(sb.drop_first() =~= vb.skip(i + 1));
            assert(sa[0] == va[i as int] && sb[0] == vb[i as int]);
        }
        i = i + 1;
    }
    let ghost sa = va.skip(i as int);
    let ghost sb = vb.skip(i as int);
    if i == b.len() {
        assert(sb.len() == 0);
        false
    } else if i == a.len() {
        assert(sa.len() == 0);
        true
    } else {
        assert(sa[0] == va[i as int] && sb[0] == vb[i as int]);
        part_less(&a[i], &b[i])
    }
}

fn listed_first(a: &HistoryEntry, b: &HistoryEntry) -> (r: bool)
    ensures
        r == listed_before(*a, *b),
{
    if modified_less(b.modified, a.modified) {
        return true;
    }
    if a.modified != b.modified {
        return false;
    }
    let pa = path_parts_of(&chars_of(a.path.as_str()));
    let pb = path_parts_of(&chars_of(b.path.as_str()));
    parts_less(&pa, &pb)
}

/// Orders entries newest first; entries modified at the same time (or both
/// of unknown time) come in path order, component by component, and
/// entries that tie on both keep their order.
pub fn sort_newest_first(entries: &mut Vec<HistoryEntry>)
    ensures
        final(entries)@.to_multiset() == old(entries)@.to_multiset(),
        newest_first(final(entries)@),
        exists|placed: Seq<int>| #[trigger] stable_arrangement(old(entries)@, final(entries)@, placed),
{
    broadcast use vstd::seq_lib::group_to_multiset_ensures, vstd::multiset::group_multiset_axioms;

    let ghost input_entries = entries@;
    let ghost mut placed: Seq<int> = Seq::empty();
    let mut sorted: Vec<HistoryEntry> = Vec::new();
    assert(input_entries.skip(0) =~= input_entries);
    while entries.len() > 0
        invariant
            entries@.len() <= input_entries.len(),
            entries@ == input_entries.skip(input_entries.len() - entries@.len()),
            newest_first(sorted@),
            sorted@.to_multiset().add(entries@.to_multiset()) == input_entries.to_multiset(),
            placed.len() == sorted@.len(),
            forall|k: int| 0 <= k < sorted@.len() ==> 0 <= #[trigger] placed[k] < input_entries.len() - entries@.len()
                && sorted@[k] == input_entries[placed[k]],
            forall|p: int, q: int| 0 <= p < q < sorted@.len() ==> #[trigger] placed[p] != #[trigger] placed[q],
            forall|p: int, q: int| 0 <= p < q < sorted@.len() && ties(#[trigger] sorted@[p], #[trigger] sorted@[q])
                ==> placed[p] < placed[q],
        decreases entries@.len(),
    {
        let ghost before_entries = entries@;
        let ghost at: int = input_entries.len() - entries@.len();
        let e = entries.remove(0);
        proof {
            assert(before_entries[0] == input_entries[at]);
            assert(entries@ =~= input_entries.skip(at + 1));
        }
        let mut j: usize = 0;
        while j < sorted.len() && !listed_first(&e, &sorted[j])
            invariant
                j <= sorted@.len(),
                forall|k: int| 0 <= k < j ==> may_precede(#[trigger] sorted@[k], e),
            decreases sorted@.len() - j,
        {
            proof {
                lemma_listing_order(sorted@[j as int], e, e);
            }
            j = j + 1;
        }
        let ghost before = sorted@;
        let ghost before_placed = placed;
        sorted.insert(j, e);
        proof {
            placed = before_placed.insert(j as int, at);
            assert forall|p: int, q: int| 0 <= p < q < sorted@.len() implies may_precede(
                #[trigger] sorted@[p],
                #[trigger] sorted@[q],
            ) by {
                if q < j {
                    assert(sorted@[p] == before[p] && sorted@[q] == before[q]);
                } else if q == j {
                    assert(sorted@[p] == before[p]);
                } else if p == j {
                    assert(sorted@[q] == before[q - 1]);
                    if j < before.len() {
                        assert(listed_before(e, before[j as int]));
                        if q - 1 > j {
                            assert(may_precede(before[j as int], before[q - 1]));
                        }
                        lemma_listing_order(e, before[j as int], before[q - 1]);
                    }
                } else if p < j {
                    assert(sorted@[p] == before[p]);
                    assert(sorted@[q] == before[q - 1]);
                } else {
                    assert(sorted@[p] == before[p - 1]);
                    assert(sorted@[q] == before[q - 1]);
                }
            }
            assert forall|k: int| 0 <= k < sorted@.len() implies 0 <= #[trigger] placed[k] < input_entries.len()
                - entries@.len() && sorted@[k] == input_entries[placed[k]] by {
                if k < j {
                    assert(placed[k] == before_placed[k] && sorted@[k] == before[k]);
                } else if k > j {
                    assert(placed[k] == before_placed[k - 1] && sorted@[k] == before[k - 1]);
                }
            }
            assert forall|p: int, q: int| 0 <= p < q < sorted@.len() implies #[trigger] placed[p] != #[trigger] placed[q] by {
                if p != j && q != j {
                    let pp = if p < j { p } else { p - 1 };
                    let qq = if q < j { q } else { q - 1 };
                    assert(placed[p] == before_placed[pp] && placed[q] == before_placed[qq]);
                } else if p == j {
                    assert(placed[q] == before_placed[q - 1]);
                } else {
                    assert(placed[p] == before_placed[p]);
                }
            }
            assert forall|p: int, q: int| 0 <= p < q < sorted@.len() && ties(#[trigger] sorted@[p], #[trigger] sorted@[q])
                implies placed[p] < placed[q] by {
                if q < j {
                    assert(sorted@[p] == before[p] && sorted@[q] == before[q]);
                    assert(placed[p] == before_placed[p] && placed[q] == before_placed[q]);
                } else if q == j {
                    assert(placed[p] == before_placed[p]);
                } else if p == j {
                    assert(sorted@[q] == before[q - 1]);
                    assert(j < before.len());
                    assert(listed_before(e, before[j as int]));
                    if q - 1 > j {
                        assert(may_precede(before[j as int], before[q - 1]));
                        lemma_listing_order(e, before[j as int], before[q - 1]);
                    }
                    assert(false);
                } else if p < j {
                    assert(sorted@[p] == before[p] && sorted@[q] == before[q - 1]);
                    assert(placed[p] == before_placed[p] && placed[q] == before_placed[q - 1]);
                } else {
                    assert(sorted@[p] == before[p - 1] && sorted@[q] == before[q - 1]);
                    assert(placed[p] == before_placed[p - 1] && placed[q] == before_placed[q - 1]);
                }
            }
            vstd::seq_lib::to_multiset_insert(before, j as int, e);
            vstd::seq_lib::to_multiset_remove(before_entries, 0);
            assert(entries@ == before_entries.remove(0));
            assert(before_entries[0] == e);
            vstd::seq_lib::to_multiset_contains(before_entries, e);
            assert(before_entries.to_multiset().count(e) > 0);
            assert(before_entries.to_multiset() =~= entries@.to_multiset().insert(e));
            assert(sorted@.to_multiset().add(entries@.to_multiset()) =~= before.to_multiset().add(
                before_entries.to_multiset(),
            ));
        }
    }
    assert(entries@ =~= Seq::<HistoryEntry>::empty());
    assert(sorted@.to_multiset() =~= input_entries.to_multiset());
    assert(stable_arrangement(input_entries, sorted@, placed));
    *entries = sorted;
}

/// The entry at one-based position `index`.
///
/// Position zero is refused; so is a position past the end, and that error
/// says how many entries there are.
pub fn select_entry(entries: &[HistoryEntry], index: usize) -> (r: Result<&HistoryEntry, HistoryError>)
    ensures
        index == 0 ==> (r matches Err(HistoryError::ZeroIndex)),
        index > entries@.len() ==> (r matches Err(HistoryError::IndexOutOfRange { index: i, available: n }) && i == index
            && n == entries@.len()),
        1 <= index <= entries@.len() ==> (r matches Ok(e) && *e == entries@[index - 1]),
{
    if index == 0 {
        return Err(HistoryError::ZeroIndex);
    }
    if index - 1 < entries.len() {
        Ok(&entries[index - 1])
    } else {
        Err(HistoryError::IndexOutOfRange { index, available: entries.len() })
    }
}

/// ASCII letters compared without regard to case, as `str::eq_ignore_ascii_case` does.
pub open spec fn ascii_lower(c: char) -> char {
    if 'A' <= c && c <= 'Z' {
        ((c as u32) + 32) as char
    } else {
        c
    }
}

pub open spec fn eq_ignore_ascii_case(a: Seq<char>, b: Seq<char>) -> bool {
    a.len() == b.len() && forall|i: int| 0 <= i < a.len() ==> ascii_lower(#[trigger] a[i]) == ascii_lower(b[i])
}

fn lower(c: char) -> (r: char)
    ensures
        r == ascii_lower(c),
{
    if 'A' <= c && c <= 'Z' {
        ((c as u8) + 32) as char
    } else {
        c
    }
}

/// A file extension names a PNG file: `png` in any mix of letter case.
pub fn is_png_extension(extension: Option<&str>) -> (r: bool)
    ensures
        r == match extension {
            Some(e) => eq_ignore_ascii_case(e@, "png"@),
            None => false,
        },
{
    match extension {
        None => false,
        Some(e) => {
            let chars = chars_of(e);
            let png = chars_of("png");
            if chars.len() != png.len() {
                return false;
            }
            let mut i: usize = 0;
            while i < chars.len()
                invariant
                    extension == Some(e),
                    chars@ == e@,
                    png@ == "png"@,
                    chars@.len() == png@.len(),
                    i <= chars@.len(),
                    forall|k: int| 0 <= k < i ==> ascii_lower(#[trigger] chars@[k]) == ascii_lower(png@[k]),
                decreases chars@.len() - i,
            {
                if lower(chars[i]) != lower(png[i]) {
                    assert(ascii_lower(e@[i as int]) != ascii_lower("png"@[i as int]));
                    return false;
                }
                i = i + 1;
            }
            true
        },
    }
}

/// The newest `limit` entries, newest first.
///
/// What is kept is in newest-first order, holds `limit` entries or all of
/// them if there are fewer, and nothing left out comes before anything kept.
pub fn newest_entries(entries: Vec<HistoryEntry>, limit: usize) -> (r: Vec<HistoryEntry>)
    ensures
        newest_first(r@),
        r@.len() == if entries@.len() < limit { entries@.len() } else { limit as nat },
        r@.to_multiset().subset_of(entries@.to_multiset()),
        forall|e: HistoryEntry, k: int| 0 <= k < r@.len() && #[trigger] entries@.to_multiset().sub(r@.to_multiset()).contains(e)
            ==> may_precede(#[trigger] r@[k], e),
{
    broadcast use vstd::seq_lib::group_to_multiset_ensures;

    let ghost input = entries@;
    let mut sorted = entries;
    sort_newest_first(&mut sorted);
    let ghost all = sorted@;
    proof {
        vstd::seq_lib::to_multiset_len(all);
        vstd::seq_lib::to_multiset_len(input);
    }
    sorted.truncate(limit);
    proof {
        let kept = sorted@;
        let n = kept.len() as int;
        assert(all =~= kept + all.skip(n));
        vstd::seq_lib::lemma_multiset_commutative(kept, all.skip(n));
        assert forall|e: HistoryEntry, k: int| 0 <= k < kept.len() && #[trigger] all.to_multiset().sub(kept.to_multiset()).contains(e)
            implies may_precede(#[trigger] kept[k], e) by {
            assert(all.to_multiset() == kept.to_multiset().add(all.skip(n).to_multiset()));
            assert(all.skip(n).to_multiset().contains(e));
            let m = choose|m: int| 0 <= m < all.skip(n).len() && all.skip(n)[m] == e;
            assert(all[n + m] == e);
            assert(kept[k] == all[k]);
        }
    }
    sorted
}

impl HistoryError {
    /// The text shown for the error.
    pub fn message(&self) -> (s: String)
        ensures
            s@ == match *self {
                HistoryError::MissingOutputDir(path) => "output directory does not exist or is not a directory: "@ + path@,
                HistoryError::ReadDir { path, reason } => "failed to read output directory "@ + path@ + ": "@ + reason@,
                HistoryError::ZeroIndex => "history index must be greater than zero"@,
                HistoryError::IndexOutOfRange { index, available } => "history index "@ + decimal(index as nat)
                    + " is not available; found "@ + decimal(available as nat) + " screenshot(s)"@,
            },
    {
        let mut out: Vec<char> = Vec::new();
        match self {
            HistoryError::MissingOutputDir(path) => {
                push_str(&mut out, "output directory does not exist or is not a directory: ");
                push_str(&mut out, path.as_str());
            },
            HistoryError::ReadDir { path, reason } => {
                push_str(&mut out, "failed to read output directory ");
                push_str(&mut out, path.as_str());
                push_str(&mut out, ": ");
                push_str(&mut out, reason.as_str());
            },
            HistoryError::ZeroIndex => push_str(&mut out, "history index must be greater than zero"),
            HistoryError::IndexOutOfRange { index, available } => {
                push_str(&mut out, "history index ");
                push_decimal(&mut out, *index as u64);
                push_str(&mut out, " is not available; found ");
                push_decimal(&mut out, *available as u64);
                push_str(&mut out, " screenshot(s)");
            },
        }
        string_from_chars(&out)
    }
}

} // verus!
