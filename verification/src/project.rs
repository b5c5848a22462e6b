//! Project records and the order in which the registry keeps them.

use vstd::prelude::*;
use vstd::string::StringExecFns;
use crate::order::{
    text_lt, text_le, text_less, lemma_text_lt_irreflexive, lemma_text_lt_splits,
    lemma_text_lt_total, lemma_text_lt_transitive,
};
use crate::text::{
    chars_of, push_text, slice_chars, string_from_chars, texts, trim_chars, trimmed,
};

verus! {

/// A moment in UTC: whole seconds since the Unix epoch and the nanoseconds
/// within that second.
#[derive(Clone, Copy, Debug, PartialEq, Eq, Structural)]
pub struct Timestamp {
    pub secs: i64,
    pub nanos: u32,
}

/// A remembered project directory.
#[derive(Debug)]
pub struct Project {
    /// The name shown to the user.
    pub name: String,
    /// The directory; two records with one path are the same project.
    pub path: String,
    /// When the project was last opened, if ever.
    pub last_opened: Option<Timestamp>,
    /// The runtime version found at the last probe, if any.
    pub node_version: Option<String>,
}

/// What a `Project` holds, as mathematical values.
pub struct ProjectView {
    pub name: Seq<char>,
    pub path: Seq<char>,
    pub last_opened: Option<Timestamp>,
    pub node_version: Option<Seq<char>>,
}

/// The view of an optional text.
pub open spec fn opt_text(s: Option<String>) -> Option<Seq<char>> {
    match s {
        Some(t) => Some(t@),
        None => None,
    }
}

impl View for Project {
    type V = ProjectView;

    open spec fn view(&self) -> ProjectView {
        ProjectView {
            name: self.name@,
            path: self.path@,
            last_opened: self.last_opened,
            node_version: opt_text(self.node_version),
        }
    }
}

/// The views of a list of projects, in order.
pub open spec fn registry_view(ps: Seq<Project>) -> Seq<ProjectView> {
    ps.map_values(|p: Project| p@)
}

/// A copy of an optional text.
pub fn copy_opt_text(s: &Option<String>) -> (r: Option<String>)
    ensures
        opt_text(r) == opt_text(*s),
{
    match s {
        Some(t) => Some(t.clone()),
        None => None,
    }
}

impl Clone for Project {
    fn clone(&self) -> (r: Self)
        ensures
            r@ == self@,
    {
        Project {
            name: self.name.clone(),
            path: self.path.clone(),
            last_opened: self.last_opened,
            node_version: copy_opt_text(&self.node_version),
        }
    }
}

/// `a` is a later moment than `b`.
pub open spec fn later(a: Timestamp, b: Timestamp) -> bool {
    a.secs > b.secs || (a.secs == b.secs && a.nanos > b.nanos)
}

/// `a` must stand before `b` in the registry: projects that were opened come
/// first, the most recently opened first; those never opened follow, by
/// ascending name.
pub open spec fn stands_before(a: ProjectView, b: ProjectView) -> bool {
    match (a.last_opened, b.last_opened) {
        (Some(ta), Some(tb)) => later(ta, tb),
        (Some(_), None) => true,
        (None, Some(_)) => false,
        (None, None) => text_lt(a.name, b.name),
    }
}

/// No later element must stand before an earlier one.
pub open spec fn is_sorted(s: Seq<ProjectView>) -> bool {
    forall|i: int, j: int| 0 <= i < j < s.len() ==> !stands_before(#[trigger] s[j], #[trigger] s[i])
}

/// The first position of `s` whose element must stand behind `x`, or the
/// length of `s` where there is none.
pub open spec fn insertion_point(s: Seq<ProjectView>, x: ProjectView) -> int
    decreases s.len(),
{
    if s.len() == 0 {
        0
    } else if stands_before(x, s[0]) {
        0
    } else {
        1 + insertion_point(s.drop_first(), x)
    }
}

/// `s` with its elements put in order, one after the other from the left,
/// each behind the elements that need not stand behind it: elements that the
/// order does not tell apart keep the order they had.
pub open spec fn sorted_copy(s: Seq<ProjectView>) -> Seq<ProjectView>
    decreases s.len(),
{
    if s.len() == 0 {
        s
    } else {
        let front = sorted_copy(s.drop_last());
        front.insert(insertion_point(front, s.last()), s.last())
    }
}

/// Whether `a` must stand before `b`.
pub fn must_precede(a: &Project, b: &Project) -> (r: bool)
    ensures
        r == stands_before(a@, b@),
{
    match (a.last_opened, b.last_opened) {
        (Some(ta), Some(tb)) => ta.secs > tb.secs || (ta.secs == tb.secs && ta.nanos > tb.nanos),
        (Some(_), None) => true,
        (None, Some(_)) => false,
        (None, None) => {
            let x = chars_of(a.name.as_str());
            let y = chars_of(b.name.as_str());
            text_less(&x, &y)
        },
    }
}

/// No project must stand before itself.
pub proof fn lemma_stands_before_irreflexive(a: ProjectView)
    ensures
        !stands_before(a, a),
{
    lemma_text_lt_irreflexive(a.name);
}

/// The order of the registry is transitive.
pub proof fn lemma_stands_before_transitive(a: ProjectView, b: ProjectView, c: ProjectView)
    requires
        stands_before(a, b),
        stands_before(b, c),
    ensures
        stands_before(a, c),
{
    if a.last_opened is None && b.last_opened is None && c.last_opened is None {
        lemma_text_lt_transitive(a.name, b.name, c.name);
    }
}

/// The insertion point lies within the sequence or at its end; `x` need not
/// stand before anything in front of it, and must stand before the element at
/// it.
pub proof fn lemma_insertion_point(s: Seq<ProjectView>, x: ProjectView)
    ensures
        0 <= insertion_point(s, x) <= s.len(),
        forall|i: int| 0 <= i < insertion_point(s, x) ==> !stands_before(x, #[trigger] s[i]),
        insertion_point(s, x) < s.len() ==> stands_before(x, s[insertion_point(s, x)]),
    decreases s.len(),
{
    if s.len() > 0 && !stands_before(x, s[0]) {
        let t = s.drop_first();
        lemma_insertion_point(t, x);
        let k = insertion_point(t, x);
        assert forall|i: int| 0 <= i < k + 1 implies !stands_before(x, #[trigger] s[i]) by {
            if i > 0 {
                assert(s[i] == t[i - 1]);
            }
        }
        if k < t.len() {
            assert(s[k + 1] == t[k]);
        }
    }
}

/// Putting `x` at its insertion point keeps a sorted sequence sorted.
pub proof fn lemma_insert_keeps_sorted(s: Seq<ProjectView>, x: ProjectView)
    requires
        is_sorted(s),
    ensures
        is_sorted(s.insert(insertion_point(s, x), x)),
{
    lemma_insertion_point(s, x);
    let k = insertion_point(s, x);
    let r = s.insert(k, x);
    assert forall|i: int, j: int| 0 <= i < j < r.len() implies !stands_before(
        #[trigger] r[j],
        #[trigger] r[i],
    ) by {
        if j < k {
            assert(r[i] == s[i] && r[j] == s[j]);
        } else if j == k {
            assert(r[i] == s[i]);
        } else if i == k {
            assert(r[j] == s[j - 1]);
            if stands_before(r[j], x) {
                lemma_stands_before_transitive(r[j], x, s[k]);
                assert(j - 1 == k || !stands_before(s[j - 1], s[k]));
                lemma_stands_before_irreflexive(s[k]);
            }
        } else if i < k {
            assert(r[i] == s[i] && r[j] == s[j - 1]);
        } else {
            assert(r[i] == s[i - 1] && r[j] == s[j - 1]);
        }
    }
}

/// The sorted copy is sorted.
pub proof fn lemma_sorted_copy_is_sorted(s: Seq<ProjectView>)
    ensures
        is_sorted(sorted_copy(s)),
    decreases s.len(),
{
    if s.len() > 0 {
        lemma_sorted_copy_is_sorted(s.drop_last());
        lemma_insert_keeps_sorted(sorted_copy(s.drop_last()), s.last());
    }
}

/// The sorted copy holds the elements of the sequence, each as often as the
/// sequence does.
pub proof fn lemma_sorted_copy_is_permutation(s: Seq<ProjectView>)
    ensures
        sorted_copy(s).to_multiset() == s.to_multiset(),
        sorted_copy(s).len() == s.len(),
    decreases s.len(),
{
    broadcast use vstd::seq_lib::group_to_multiset_ensures;
    if s.len() > 0 {
        let front = sorted_copy(s.drop_last());
        let x = s.last();
        lemma_sorted_copy_is_permutation(s.drop_last());
        lemma_insertion_point(front, x);
        let k = insertion_point(front, x);
        let r = front.insert(k, x);
        assert(r.remove(k) =~= front);
        assert(r[k] == x);
        assert(r.remove(k).to_multiset() == r.to_multiset().remove(x));
        assert(r.to_multiset().count(x) > 0) by {
            assert(r.contains(x));
        }
        assert(r.to_multiset() =~= front.to_multiset().insert(x));
        assert(s =~= s.drop_last().push(x));
        assert(s.to_multiset() =~= s.drop_last().to_multiset().insert(x));
    } else {
        assert(sorted_copy(s) =~= s);
    }
}

/// The order does not tell `a` and `b` apart: neither must stand before the
/// other.
pub open spec fn same_rank(a: ProjectView, b: ProjectView) -> bool {
    !stands_before(a, b) && !stands_before(b, a)
}

/// The elements of `s` that the order does not tell apart from `x`, in the
/// order in which `s` holds them.
pub open spec fn rank_part(s: Seq<ProjectView>, x: ProjectView) -> Seq<ProjectView>
    decreases s.len(),
{
    if s.len() == 0 {
        s
    } else if same_rank(s.last(), x) {
        rank_part(s.drop_last(), x).push(s.last())
    } else {
        rank_part(s.drop_last(), x)
    }
}

/// A project that must stand before another must stand before every third
/// project, or the third before the other.
pub proof fn lemma_stands_before_splits(a: ProjectView, b: ProjectView, c: ProjectView)
    requires
        stands_before(a, c),
    ensures
        stands_before(a, b) || stands_before(b, c),
{
    if a.last_opened is None && b.last_opened is None && c.last_opened is None {
        lemma_text_lt_splits(a.name, b.name, c.name);
    }
}

/// The part of a concatenation is the concatenation of the parts.
pub proof fn lemma_rank_part_of_concat(a: Seq<ProjectView>, b: Seq<ProjectView>, x: ProjectView)
    ensures
        rank_part(a + b, x) == rank_part(a, x) + rank_part(b, x),
    decreases b.len(),
{
    if b.len() == 0 {
        assert(a + b =~= a);
        assert(rank_part(a, x) + rank_part(b, x) =~= rank_part(a, x));
    } else {
        lemma_rank_part_of_concat(a, b.drop_last(), x);
        assert((a + b).drop_last() =~= a + b.drop_last());
        assert((a + b).last() == b.last());
        if same_rank(b.last(), x) {
            assert(rank_part(a, x) + rank_part(b.drop_last(), x).push(b.last()) =~= (rank_part(a, x)
                + rank_part(b.drop_last(), x)).push(b.last()));
        }
    }
}

/// A sequence none of whose elements has the rank of `x` has an empty part.
pub proof fn lemma_rank_part_empty(s: Seq<ProjectView>, x: ProjectView)
    requires
        forall|i: int| 0 <= i < s.len() ==> !same_rank(#[trigger] s[i], x),
    ensures
        rank_part(s, x).len() == 0,
    decreases s.len(),
{
    if s.len() > 0 {
        assert(!same_rank(s[s.len() - 1], x));
        assert forall|i: int| 0 <= i < s.drop_last().len() implies !same_rank(
            #[trigger] s.drop_last()[i],
            x,
        ) by {
            assert(s.drop_last()[i] == s[i]);
        }
        lemma_rank_part_empty(s.drop_last(), x);
    }
}

/// Putting `y` at its insertion point into a sorted sequence puts it behind
/// the elements of its rank: the part of its rank gets `y` at its end, and
/// every other part stays as it is.
pub proof fn lemma_insert_is_stable(s: Seq<ProjectView>, y: ProjectView, x: ProjectView)
    requires
        is_sorted(s),
    ensures
        rank_part(s.insert(insertion_point(s, y), y), x) == if same_rank(y, x) {
            rank_part(s, x).push(y)
        } else {
            rank_part(s, x)
        },
{
    lemma_insertion_point(s, y);
    let k = insertion_point(s, y);
    let head = s.take(k);
    let tail = s.skip(k);
    let one = seq![y];
    assert(s.insert(k, y) =~= (head + one) + tail);
    assert(s =~= head + tail);
    lemma_rank_part_of_concat(head + one, tail, x);
    lemma_rank_part_of_concat(head, one, x);
    lemma_rank_part_of_concat(head, tail, x);
    assert(one.drop_last() =~= Seq::<ProjectView>::empty());
    assert(one.last() == y);
    assert(rank_part(one.drop_last(), x) =~= Seq::<ProjectView>::empty());
    if same_rank(y, x) {
        assert(rank_part(one, x) =~= one);
        assert forall|i: int| 0 <= i < tail.len() implies !same_rank(#[trigger] tail[i], x) by {
            let z = tail[i];
            assert(z == s[k + i]);
            assert(stands_before(y, s[k]));
            if i > 0 {
                assert(!stands_before(s[k + i], s[k]));
                lemma_stands_before_splits(y, z, s[k]);
            }
            assert(stands_before(y, z));
            if same_rank(z, x) {
                lemma_stands_before_splits(y, x, z);
            }
        }
        lemma_rank_part_empty(tail, x);
        assert(rank_part(tail, x) =~= Seq::<ProjectView>::empty());
        assert((rank_part(head, x) + one) + rank_part(tail, x) =~= (rank_part(head, x) + rank_part(
            tail,
            x,
        )).push(y));
    } else {
        assert(rank_part(one, x) =~= Seq::<ProjectView>::empty());
        assert((rank_part(head, x) + rank_part(one, x)) + rank_part(tail, x) =~= rank_part(head, x)
            + rank_part(tail, x));
    }
}

/// Sorting is stable: the projects that the order does not tell apart from
/// `x` stand in the sorted copy in the order in which they stood before.
pub proof fn lemma_sorted_copy_is_stable(s: Seq<ProjectView>, x: ProjectView)
    ensures
        rank_part(sorted_copy(s), x) == rank_part(s, x),
    decreases s.len(),
{
    if s.len() > 0 {
        lemma_sorted_copy_is_stable(s.drop_last(), x);
        lemma_sorted_copy_is_sorted(s.drop_last());
        lemma_insert_is_stable(sorted_copy(s.drop_last()), s.last(), x);
    }
}

/// The position at which `p` goes into the sorted list `out`.
pub fn find_insertion_point(out: &Vec<Project>, p: &Project) -> (k: usize)
    ensures
        k == insertion_point(registry_view(out@), p@),
        k <= out.len(),
{
    let ghost v = registry_view(out@);
    let mut i: usize = 0;
    proof {
        assert(v.skip(0) =~= v);
    }
    while i < out.len()
        invariant
            i <= out.len(),
            v == registry_view(out@),
            insertion_point(v, p@) == i + insertion_point(v.skip(i as int), p@),
        decreases out.len() - i,
    {
        proof {
            assert(v.skip(i as int)[0] == out@[i as int]@);
            assert(v.skip(i as int).drop_first() =~= v.skip(i + 1));
        }
        if must_precede(p, &out[i]) {
            return i;
        }
        i += 1;
    }
    i
}

/// A copy of the list in the order of the registry: what is written when the
/// registry is saved. Projects that the order does not tell apart keep the
/// order they had.
pub fn sorted_projects(projects: &Vec<Project>) -> (out: Vec<Project>)
    ensures
        registry_view(out@) == sorted_copy(registry_view(projects@)),
        is_sorted(registry_view(out@)),
        registry_view(out@).to_multiset() == registry_view(projects@).to_multiset(),
        out.len() == projects.len(),
        forall|x: ProjectView| #[trigger]
            rank_part(registry_view(out@), x) == rank_part(registry_view(projects@), x),
        distinct_paths(registry_view(projects@)) ==> distinct_paths(registry_view(out@)),
{
    let ghost v = registry_view(projects@);
    let mut out: Vec<Project> = Vec::new();
    let mut i: usize = 0;
    proof {
        assert(v.take(0) =~= Seq::<ProjectView>::empty());
        assert(registry_view(out@) =~= Seq::<ProjectView>::empty());
    }
    while i < projects.len()
        invariant
            i <= projects.len(),
            v == registry_view(projects@),
            registry_view(out@) == sorted_copy(v.take(i as int)),
        decreases projects.len() - i,
    {
        let p = projects[i].clone();
        let k = find_insertion_point(&out, &p);
        proof {
            let t = v.take(i + 1);
            assert(t.drop_last() =~= v.take(i as int));
            assert(t.last() == projects@[i as int]@);
            assert(registry_view(out@.insert(k as int, p)) =~= registry_view(out@).insert(
                k as int,
                p@,
            ));
        }
        out.insert(k, p);
        i += 1;
    }
    proof {
        assert(v.take(i as int) =~= v);
        lemma_sorted_copy_is_sorted(v);
        lemma_sorted_copy_is_permutation(v);
        lemma_sorted_copy_keeps_paths(v);
        assert forall|x: ProjectView| #[trigger]
            rank_part(registry_view(out@), x) == rank_part(v, x) by {
            lemma_sorted_copy_is_stable(v, x);
        }
    }
    out
}

/// Puts the list in the order of the registry. Projects that the order does
/// not tell apart keep the order they had.
pub fn sort_projects(projects: &mut Vec<Project>)
    ensures
        registry_view(final(projects)@) == sorted_copy(registry_view(old(projects)@)),
        is_sorted(registry_view(final(projects)@)),
        registry_view(final(projects)@).to_multiset() == registry_view(old(projects)@).to_multiset(),
        final(projects).len() == old(projects).len(),
        forall|x: ProjectView| #[trigger]
            rank_part(registry_view(final(projects)@), x) == rank_part(
                registry_view(old(projects)@),
                x,
            ),
        distinct_paths(registry_view(old(projects)@)) ==> distinct_paths(
            registry_view(final(projects)@),
        ),
{
    let out = sorted_projects(projects);
    *projects = out;
}

/// The order of a sorted copy. Of two projects that were opened, the one
/// opened later comes first; a project that was opened comes before every
/// project never opened; of two projects never opened, the one with the
/// smaller name comes first. Read the other way: what comes first was opened
/// no earlier, and, among those never opened, has no greater name.
pub proof fn lemma_sort_invariant(s: Seq<ProjectView>, i: int, j: int)
    requires
        0 <= i < s.len(),
        0 <= j < s.len(),
    ensures
        ({
            let a = sorted_copy(s)[i];
            let b = sorted_copy(s)[j];
            &&& stands_before(a, b) ==> i < j
            &&& a.last_opened is Some && b.last_opened is Some && later(
                a.last_opened->Some_0,
                b.last_opened->Some_0,
            ) ==> i < j
            &&& a.last_opened is Some && b.last_opened is None ==> i < j
            &&& a.last_opened is None && b.last_opened is None && text_lt(a.name, b.name) ==> i < j
            &&& i < j && b.last_opened is Some ==> a.last_opened is Some && !later(
                b.last_opened->Some_0,
                a.last_opened->Some_0,
            )
            &&& i < j && a.last_opened is None ==> b.last_opened is None && text_le(a.name, b.name)
        }),
{
    lemma_sorted_copy_is_sorted(s);
    lemma_sorted_copy_is_permutation(s);
    let a = sorted_copy(s)[i];
    let b = sorted_copy(s)[j];
    lemma_stands_before_irreflexive(a);
    lemma_text_lt_total(a.name, b.name);
}

/// The name of the file, directly inside a project directory, that holds the
/// version of the runtime the project wants.
pub const MARKER_FILE: &'static str = ".nvmrc";

/// Why no version could be reported for a project.
#[derive(Debug, Clone, Copy, PartialEq, Eq, Structural)]
pub enum ProbeError {
    /// The project directory holds no marker file.
    NotFound,
}

/// The version that a marker file with the contents `contents` names: the
/// contents without surrounding white space and without one leading `v`.
pub open spec fn version_in(contents: Seq<char>) -> Seq<char> {
    let t = trimmed(contents);
    if t.len() > 0 && t[0] == 'v' {
        t.drop_first()
    } else {
        t
    }
}

/// The version of the runtime that a project asks for. `marker` holds the
/// contents of the project's marker file, or `None` where the directory has no
/// such file.
pub fn detect_node_version(marker: Option<&str>) -> (r: Result<String, ProbeError>)
    ensures
        match marker {
            Some(contents) => r is Ok && r->Ok_0@ == version_in(contents@),
            None => r == Err::<String, ProbeError>(ProbeError::NotFound),
        },
{
    match marker {
        None => Err(ProbeError::NotFound),
        Some(contents) => {
            let all = chars_of(contents);
            let t = trim_chars(&all);
            if t.len() > 0 && t[0] == 'v' {
                let rest = slice_chars(&t, 1, t.len());
                assert(rest@ =~= t@.drop_first());
                Ok(string_from_chars(&rest))
            } else {
                Ok(string_from_chars(&t))
            }
        },
    }
}

/// `s` without the separators and the `.` segments at its end.
pub open spec fn strip_tail(s: Seq<char>) -> Seq<char>
    decreases s.len(),
{
    if s.len() > 0 && s.last() == '/' {
        strip_tail(s.drop_last())
    } else if s.len() >= 2 && s.last() == '.' && s[s.len() - 2] == '/' {
        strip_tail(s.drop_last())
    } else {
        s
    }
}

/// What follows the last separator of `s`; all of `s` where it has none.
pub open spec fn last_segment(s: Seq<char>) -> Seq<char>
    decreases s.len(),
{
    if s.len() == 0 || s.last() == '/' {
        Seq::<char>::empty()
    } else {
        last_segment(s.drop_last()).push(s.last())
    }
}

/// The final segment of the path `s`, as `Path::file_name` of std gives it on
/// Unix: separators and `.` segments at the end do not count, and a path that
/// ends in the root, in `.` or in `..` has none.
pub open spec fn file_name_of(s: Seq<char>) -> Option<Seq<char>> {
    let seg = last_segment(strip_tail(s));
    if seg.len() == 0 || seg == seq!['.'] || seg == seq!['.', '.'] {
        None
    } else {
        Some(seg)
    }
}

/// The name under which the directory `path` is added: its final segment, or
/// `Unknown` where it has none.
pub open spec fn project_name_of(path: Seq<char>) -> Seq<char> {
    match file_name_of(path) {
        Some(name) => name,
        None => "Unknown"@,
    }
}

/// The name under which the directory `path` is added.
pub fn project_name_from_path(path: &str) -> (name: String)
    ensures
        name@ == project_name_of(path@),
{
    let v = chars_of(path);
    let mut end: usize = v.len();
    assert(v@.take(end as int) =~= v@);
    while end > 0 && (v[end - 1] == '/' || (end >= 2 && v[end - 1] == '.' && v[end - 2] == '/'))
        invariant
            end <= v.len(),
            strip_tail(v@) == strip_tail(v@.take(end as int)),
        decreases end,
    {
        assert(v@.take(end as int).drop_last() =~= v@.take(end - 1));
        end -= 1;
    }
    let ghost stripped = v@.take(end as int);
    assert(strip_tail(v@) == stripped);
    let mut start: usize = end;
    assert(v@.subrange(start as int, end as int) =~= Seq::<char>::empty());
    while start > 0 && v[start - 1] != '/'
        invariant
            start <= end <= v.len(),
            stripped == v@.take(end as int),
            forall|k: int| start <= k < end ==> v@[k] != '/',
        decreases start,
    {
        start -= 1;
    }
    proof {
        lemma_last_segment(stripped, start as int);
        assert(stripped.subrange(start as int, end as int) =~= v@.subrange(start as int, end as int));
    }
    let seg = slice_chars(&v, start, end);
    let n = seg.len();
    if n == 0 || (n == 1 && seg[0] == '.') || (n == 2 && seg[0] == '.' && seg[1] == '.') {
        assert(seg@.len() == 1 && seg@[0] == '.' ==> seg@ =~= seq!['.']);
        assert(seg@.len() == 2 && seg@[0] == '.' && seg@[1] == '.' ==> seg@ =~= seq!['.', '.']);
        "Unknown".to_owned()
    } else {
        assert(seg@ != seq!['.']);
        assert(seg@ != seq!['.', '.']) by {
            if seg@.len() == 2 {
                assert(seq!['.', '.'][0] == '.' && seq!['.', '.'][1] == '.');
            }
        }
        string_from_chars(&seg)
    }
}

/// The last segment of `s` starts where its last separator ends.
pub proof fn lemma_last_segment(s: Seq<char>, start: int)
    requires
        0 <= start <= s.len(),
        forall|k: int| start <= k < s.len() ==> s[k] != '/',
        start > 0 ==> s[start - 1] == '/',
    ensures
        last_segment(s) == s.subrange(start, s.len() as int),
    decreases s.len() - start,
{
    if start == s.len() {
        assert(s.subrange(start, s.len() as int) =~= Seq::<char>::empty());
    } else {
        let t = s.drop_last();
        lemma_last_segment(t, start);
        assert(t.subrange(start, t.len() as int).push(s.last()) =~= s.subrange(
            start,
            s.len() as int,
        ));
    }
}

/// The view of an optional borrowed text.
pub open spec fn opt_str(s: Option<&str>) -> Option<Seq<char>> {
    match s {
        Some(t) => Some(t@),
        None => None,
    }
}

/// Some project of `ps` has the path `path`.
pub open spec fn has_path(ps: Seq<ProjectView>, path: Seq<char>) -> bool {
    exists|i: int| 0 <= i < ps.len() && (#[trigger] ps[i]).path == path
}

/// How many projects of `ps` have the path `path`.
pub open spec fn count_path(ps: Seq<ProjectView>, path: Seq<char>) -> nat
    decreases ps.len(),
{
    if ps.len() == 0 {
        0
    } else {
        count_path(ps.drop_last(), path) + if ps.last().path == path {
            1nat
        } else {
            0nat
        }
    }
}

/// No two projects of `ps` have the same path.
pub open spec fn distinct_paths(ps: Seq<ProjectView>) -> bool {
    forall|i: int, j: int|
        0 <= i < j < ps.len() ==> (#[trigger] ps[i]).path != (#[trigger] ps[j]).path
}

/// The record made for the directory `path` when it is added; `marker` holds
/// the contents of its marker file, if it has one.
pub open spec fn added_project(path: Seq<char>, marker: Option<Seq<char>>) -> ProjectView {
    ProjectView {
        name: project_name_of(path),
        path: path,
        last_opened: None,
        node_version: match marker {
            Some(contents) => Some(version_in(contents)),
            None => None,
        },
    }
}

/// The registry `ps` after the directory `path` was added: unchanged where it
/// holds the path already, else with the new record at its end.
pub open spec fn with_directory(
    ps: Seq<ProjectView>,
    path: Seq<char>,
    marker: Option<Seq<char>>,
) -> Seq<ProjectView> {
    if has_path(ps, path) {
        ps
    } else {
        ps.push(added_project(path, marker))
    }
}

/// What adding a directory did.
#[derive(Debug)]
pub enum AddOutcome {
    /// The registry holds the directory already; nothing was changed.
    AlreadyExists,
    /// A record was appended, with this name and this version.
    Added { name: String, node_version: Option<String> },
}

/// Whether some project of the list has the path `path`.
pub fn contains_path(projects: &Vec<Project>, path: &str) -> (b: bool)
    ensures
        b == has_path(registry_view(projects@), path@),
{
    let wanted = path.to_owned();
    let mut i: usize = 0;
    while i < projects.len()
        invariant
            i <= projects.len(),
            wanted@ == path@,
            forall|k: int| 0 <= k < i ==> (#[trigger] registry_view(projects@)[k]).path != path@,
        decreases projects.len() - i,
    {
        if projects[i].path == wanted {
            assert(registry_view(projects@)[i as int].path == path@);
            return true;
        }
        i += 1;
    }
    false
}

/// Adds the directory `current_dir` to the registry unless a project with
/// that path is in it. The new record is named after the final segment of the
/// path, was never opened, and carries the version that the marker file's
/// contents `marker` name, if there is such a file.
pub fn add_current_directory(
    projects: &mut Vec<Project>,
    current_dir: &str,
    marker: Option<&str>,
) -> (r: AddOutcome)
    ensures
        registry_view(final(projects)@) == with_directory(
            registry_view(old(projects)@),
            current_dir@,
            opt_str(marker),
        ),
        has_path(registry_view(old(projects)@), current_dir@) ==> r is AlreadyExists
            && final(projects)@ == old(projects)@,
        !has_path(registry_view(old(projects)@), current_dir@) ==> r is Added && r->name@
            == project_name_of(current_dir@) && opt_text(r->node_version) == added_project(
            current_dir@,
            opt_str(marker),
        ).node_version,
{
    if contains_path(projects, current_dir) {
        return AddOutcome::AlreadyExists;
    }
    let name = project_name_from_path(current_dir);
    let node_version = match detect_node_version(marker) {
        Ok(v) => Some(v),
        Err(_) => None,
    };
    let project = Project {
        name: name.clone(),
        path: current_dir.to_owned(),
        last_opened: None,
        node_version: copy_opt_text(&node_version),
    };
    proof {
        assert(project@ == added_project(current_dir@, opt_str(marker)));
        assert(registry_view(projects@.push(project)) =~= registry_view(projects@).push(project@));
    }
    projects.push(project);
    AddOutcome::Added { name, node_version }
}

/// A registry without the path holds it no times; one with distinct paths
/// that has the path holds it once.
pub proof fn lemma_count_path(ps: Seq<ProjectView>, path: Seq<char>)
    ensures
        !has_path(ps, path) ==> count_path(ps, path) == 0,
        has_path(ps, path) ==> count_path(ps, path) >= 1,
        has_path(ps, path) && distinct_paths(ps) ==> count_path(ps, path) == 1,
    decreases ps.len(),
{
    if ps.len() > 0 {
        let front = ps.drop_last();
        lemma_count_path(front, path);
        if has_path(front, path) {
            let i = choose|i: int| 0 <= i < front.len() && (#[trigger] front[i]).path == path;
            assert(ps[i].path == path);
        }
        if has_path(ps, path) {
            let i = choose|i: int| 0 <= i < ps.len() && (#[trigger] ps[i]).path == path;
            if i < front.len() {
                assert(front[i].path == path);
            }
        }
        if ps.last().path == path {
            assert(ps[ps.len() - 1].path == path);
        }
        if distinct_paths(ps) {
            assert forall|i: int, j: int| 0 <= i < j < front.len() implies (#[trigger] front[i]).path
                != (#[trigger] front[j]).path by {
                assert(ps[i].path != ps[j].path);
            }
            if ps.last().path == path && has_path(front, path) {
                let i = choose|i: int| 0 <= i < front.len() && (#[trigger] front[i]).path == path;
                assert(ps[i].path != ps[ps.len() - 1].path);
            }
        }
    }
}

/// Sorting neither adds a path nor loses one, and keeps distinct paths
/// distinct.
pub proof fn lemma_sorted_copy_keeps_paths(s: Seq<ProjectView>)
    ensures
        forall|path: Seq<char>| has_path(sorted_copy(s), path) <==> has_path(s, path),
        distinct_paths(s) ==> distinct_paths(sorted_copy(s)),
    decreases s.len(),
{
    if s.len() > 0 {
        let init = s.drop_last();
        let front = sorted_copy(init);
        let x = s.last();
        lemma_sorted_copy_keeps_paths(init);
        lemma_insertion_point(front, x);
        let k = insertion_point(front, x);
        let r = front.insert(k, x);
        assert forall|path: Seq<char>| has_path(r, path) implies has_path(s, path) by {
            let i = choose|i: int| 0 <= i < r.len() && (#[trigger] r[i]).path == path;
            if i == k {
                assert(s[s.len() - 1].path == path);
            } else {
                let m = if i < k {
                    i
                } else {
                    i - 1
                };
                assert(front[m].path == path);
                assert(has_path(front, path));
                assert(has_path(init, path));
                let n = choose|n: int| 0 <= n < init.len() && (#[trigger] init[n]).path == path;
                assert(s[n].path == path);
            }
        }
        assert forall|path: Seq<char>| has_path(s, path) implies has_path(r, path) by {
            let i = choose|i: int| 0 <= i < s.len() && (#[trigger] s[i]).path == path;
            if i == s.len() - 1 {
                assert(r[k].path == path);
            } else {
                assert(init[i].path == path);
                assert(has_path(init, path));
                assert(has_path(front, path));
                let m = choose|m: int| 0 <= m < front.len() && (#[trigger] front[m]).path == path;
                if m < k {
                    assert(r[m].path == path);
                } else {
                    assert(r[m + 1].path == path);
                }
            }
        }
        if distinct_paths(s) {
            assert forall|i: int, j: int| 0 <= i < j < init.len() implies (#[trigger] init[i]).path
                != (#[trigger] init[j]).path by {
                assert(s[i].path != s[j].path);
            }
            assert forall|m: int| 0 <= m < front.len() implies (#[trigger] front[m]).path
                != x.path by {
                if front[m].path == x.path {
                    assert(has_path(front, x.path));
                    assert(has_path(init, x.path));
                    let n = choose|n: int|
                        0 <= n < init.len() && (#[trigger] init[n]).path == x.path;
                    assert(s[n].path != s[s.len() - 1].path);
                }
            }
            assert forall|i: int, j: int| 0 <= i < j < r.len() implies (#[trigger] r[i]).path != (
            #[trigger] r[j]).path by {
                let mi = if i < k {
                    i
                } else {
                    i - 1
                };
                let mj = if j < k {
                    j
                } else {
                    j - 1
                };
                if i == k {
                    assert(r[j] == front[mj]);
                } else if j == k {
                    assert(r[i] == front[mi]);
                } else {
                    assert(r[i] == front[mi] && r[j] == front[mj]);
                    assert(front[mi].path != front[mj].path);
                }
            }
        }
    }
}

/// Adding a directory a second time changes nothing: after the first time the
/// registry holds the path, so the second leaves it as it is. A registry with
/// distinct paths keeps them distinct and then holds the path exactly once.
pub proof fn lemma_add_directory_twice(
    ps: Seq<ProjectView>,
    path: Seq<char>,
    first: Option<Seq<char>>,
    second: Option<Seq<char>>,
)
    ensures
        has_path(with_directory(ps, path, first), path),
        with_directory(with_directory(ps, path, first), path, second) == with_directory(
            ps,
            path,
            first,
        ),
        distinct_paths(ps) ==> distinct_paths(with_directory(ps, path, first)) && count_path(
            with_directory(ps, path, first),
            path,
        ) == 1,
{
    let once = with_directory(ps, path, first);
    if !has_path(ps, path) {
        assert(once[ps.len() as int].path == path);
        if distinct_paths(ps) {
            assert forall|i: int, j: int| 0 <= i < j < once.len() implies (#[trigger] once[i]).path
                != (#[trigger] once[j]).path by {
                assert(once[i] == ps[i]);
                if j < ps.len() {
                    assert(once[j] == ps[j]);
                }
            }
        }
    }
    lemma_count_path(once, path);
}

/// The record made for what the user entered in the dialog that adds a
/// project: name and path without surrounding white space.
pub open spec fn entered_project(
    name: Seq<char>,
    path: Seq<char>,
    marker: Option<Seq<char>>,
) -> ProjectView {
    ProjectView {
        name: trimmed(name),
        path: trimmed(path),
        last_opened: None,
        node_version: match marker {
            Some(contents) => Some(version_in(contents)),
            None => None,
        },
    }
}

/// `line` without the white space around it.
pub fn trimmed_text(line: &str) -> (r: String)
    ensures
        r@ == trimmed(line@),
{
    let all = chars_of(line);
    let t = trim_chars(&all);
    string_from_chars(&t)
}

/// Appends the project that the user entered: `name` and `path` are the lines
/// as typed, `marker` holds the contents of the marker file in that
/// directory, if it has one. Returns the version recorded. The record is
/// appended whatever the registry holds.
pub fn add_project(projects: &mut Vec<Project>, name: &str, path: &str, marker: Option<&str>) -> (version:
    Option<String>)
    ensures
        registry_view(final(projects)@) == registry_view(old(projects)@).push(
            entered_project(name@, path@, opt_str(marker)),
        ),
        opt_text(version) == entered_project(name@, path@, opt_str(marker)).node_version,
{
    let node_version = match detect_node_version(marker) {
        Ok(v) => Some(v),
        Err(_) => None,
    };
    let project = Project {
        name: trimmed_text(name),
        path: trimmed_text(path),
        last_opened: None,
        node_version: copy_opt_text(&node_version),
    };
    proof {
        assert(project@ == entered_project(name@, path@, opt_str(marker)));
        assert(registry_view(projects@.push(project)) =~= registry_view(projects@).push(project@));
    }
    projects.push(project);
    node_version
}

/// What is said about the version of a project that was added from the
/// current directory.
pub open spec fn version_line(version: Option<Seq<char>>) -> Seq<char> {
    match version {
        Some(v) => "   Node version: "@ + v,
        None => "   No .nvmrc file found"@,
    }
}

/// What is said about the version of a project that was added in the dialog.
pub open spec fn version_notice(version: Option<Seq<char>>) -> Seq<char> {
    match version {
        Some(v) => "Node version detected: "@ + v,
        None => "No .nvmrc file found."@,
    }
}

/// The lines that report what adding the directory `path` did.
pub open spec fn report_lines(
    added: Option<(Seq<char>, Option<Seq<char>>)>,
    path: Seq<char>,
) -> Seq<Seq<char>> {
    match added {
        None => seq!["Project already exists in nodash"@],
        Some((name, version)) => seq![
            "\u{2705} Added '"@ + name + "' to nodash"@,
            "   Path: "@ + path,
            version_line(version),
        ],
    }
}

/// What is said about the version of a project that was added in the dialog.
pub fn dialog_notice(version: &Option<String>) -> (line: String)
    ensures
        line@ == version_notice(opt_text(*version)),
{
    match version {
        Some(v) => {
            let mut line = "Node version detected: ".to_owned();
            line.append(v.as_str());
            line
        },
        None => "No .nvmrc file found.".to_owned(),
    }
}

impl AddOutcome {
    /// What the outcome holds, as mathematical values: nothing where the
    /// directory was there already, else the name and the version recorded.
    pub open spec fn added(&self) -> Option<(Seq<char>, Option<Seq<char>>)> {
        match *self {
            AddOutcome::AlreadyExists => None,
            AddOutcome::Added { name, node_version } => Some((name@, opt_text(node_version))),
        }
    }

    /// The lines that report the outcome to the user, for the directory
    /// `path`.
    pub fn report(&self, path: &str) -> (lines: Vec<String>)
        ensures
            texts(lines@) == report_lines(self.added(), path@),
    {
        let mut lines: Vec<String> = Vec::new();
        proof {
            assert(texts(lines@) =~= Seq::<Seq<char>>::empty());
        }
        match self {
            AddOutcome::AlreadyExists => {
                push_text(&mut lines, "Project already exists in nodash");
            },
            AddOutcome::Added { name, node_version } => {
                let mut first = "\u{2705} Added '".to_owned();
                first.append(name.as_str());
                first.append("' to nodash");
                push_text(&mut lines, first.as_str());
                let mut second = "   Path: ".to_owned();
                second.append(path);
                push_text(&mut lines, second.as_str());
                match node_version {
                    Some(v) => {
                        let mut third = "   Node version: ".to_owned();
                        third.append(v.as_str());
                        push_text(&mut lines, third.as_str());
                    },
                    None => {
                        push_text(&mut lines, "   No .nvmrc file found");
                    },
                }
            },
        }
        assert(texts(lines@) =~= report_lines(self.added(), path@));
        lines
    }
}

} // verus!
