//! What a tool is told about the problems that language servers found.

use crate::path::{self, split_path};
use crate::render::Diagnostic;
use crate::text::{chars_of, same};
use vstd::prelude::*;

verus! {

/// A file with what its server found in it.
pub struct FileProblems {
    pub path: String,
    /// What the path resolves to, if it does.
    pub resolved: Option<String>,
    pub list: Vec<Diagnostic>,
}

/// A file somebody asks about.
pub struct Wanted {
    pub path: String,
    pub resolved: Option<String>,
}

/// Whether `a` comes before `b`: it is less at the first place where they
/// differ, or `b` goes on where it ends.
pub open spec fn lex_less<T>(a: Seq<T>, b: Seq<T>, less: spec_fn(T, T) -> bool) -> bool {
    exists|i: int| #[trigger] parts_at(a, b, i, less)
}

/// Whether `a` and `b` agree before `i`, and `a` is less there.
pub open spec fn parts_at<T>(
    a: Seq<T>,
    b: Seq<T>,
    i: int,
    less: spec_fn(T, T) -> bool,
) -> bool {
    &&& 0 <= i <= a.len()
    &&& i < b.len()
    &&& forall|j: int| 0 <= j < i ==> #[trigger] a[j] == b[j]
    &&& i < a.len() ==> less(a[i], b[i])
}

/// The order of characters.
pub open spec fn char_less() -> spec_fn(char, char) -> bool {
    |a: char, b: char| a < b
}

/// The root comes before everything, and what leads up before names.
pub open spec fn kind_of(part: Seq<char>) -> int {
    if part == "/"@ {
        0
    } else if part == "."@ {
        1
    } else if part == ".."@ {
        2
    } else {
        3
    }
}

/// The order of the components of paths.
pub open spec fn part_less() -> spec_fn(Seq<char>, Seq<char>) -> bool {
    |a: Seq<char>, b: Seq<char>|
        kind_of(a) < kind_of(b) || (kind_of(a) == kind_of(b) && lex_less(a, b, char_less()))
}

/// The order of paths: component by component.
pub open spec fn path_less(a: Seq<char>, b: Seq<char>) -> bool {
    lex_less(path::components(a), path::components(b), part_less())
}

/// Whether `less` orders: nothing comes before itself, and what comes before
/// what comes before something comes before it.
pub open spec fn orders<T>(less: spec_fn(T, T) -> bool) -> bool {
    &&& forall|a: T| !#[trigger] less(a, a)
    &&& forall|a: T, b: T, c: T| #[trigger] less(a, b) && #[trigger] less(b, c) ==> less(a, c)
    &&& forall|a: T, b: T| #[trigger] less(a, b) || less(b, a) || a == b
}

/// Sequences are ordered when what they hold is.
proof fn lex_orders<T>(less: spec_fn(T, T) -> bool)
    requires
        orders(less),
    ensures
        forall|a: Seq<T>| !#[trigger] lex_less(a, a, less),
        forall|a: Seq<T>, b: Seq<T>, c: Seq<T>|
            #[trigger] lex_less(a, b, less) && #[trigger] lex_less(b, c, less) ==> lex_less(
                a,
                c,
                less,
            ),
        forall|a: Seq<T>, b: Seq<T>|
            #[trigger] lex_less(a, b, less) || lex_less(b, a, less) || a == b,
{
    assert forall|a: Seq<T>| !#[trigger] lex_less(a, a, less) by {
        if lex_less(a, a, less) {
            let i = choose|i: int| #[trigger] parts_at(a, a, i, less);
            assert(less(a[i], a[i]));
        }
    }
    assert forall|a: Seq<T>, b: Seq<T>, c: Seq<T>|
        #[trigger] lex_less(a, b, less) && #[trigger] lex_less(b, c, less) implies lex_less(
        a,
        c,
        less,
    ) by {
        let i = choose|i: int| #[trigger] parts_at(a, b, i, less);
        let j = choose|j: int| #[trigger] parts_at(b, c, j, less);
        let k = if i < j {
            i
        } else {
            j
        };
        assert forall|m: int| 0 <= m < k implies #[trigger] a[m] == c[m] by {
            assert(a[m] == b[m]);
            assert(b[m] == c[m]);
        }
        if k < a.len() {
            if i < j {
                assert(b[i] == c[i]);
            } else if j < i {
                assert(a[j] == b[j]);
            } else {
                assert(less(a[k], b[k]) && less(b[k], c[k]));
            }
        }
        assert(parts_at(a, c, k, less));
    }
    assert forall|a: Seq<T>, b: Seq<T>|
        #[trigger] lex_less(a, b, less) || lex_less(b, a, less) || a == b by {
        lex_total(a, b, less, 0);
    }
}

/// Two sequences that agree before `i` are the same, or one comes first.
proof fn lex_total<T>(a: Seq<T>, b: Seq<T>, less: spec_fn(T, T) -> bool, i: int)
    requires
        orders(less),
        0 <= i <= a.len(),
        i <= b.len(),
        forall|j: int| 0 <= j < i ==> #[trigger] a[j] == b[j],
    ensures
        lex_less(a, b, less) || lex_less(b, a, less) || a == b,
    decreases a.len() - i,
{
    if i == a.len() && i == b.len() {
        assert(a =~= b);
    } else if i == a.len() {
        assert(parts_at(a, b, i, less));
    } else if i == b.len() {
        assert forall|j: int| 0 <= j < i implies #[trigger] b[j] == a[j] by {
            assert(a[j] == b[j]);
        }
        assert(parts_at(b, a, i, less));
    } else if a[i] == b[i] {
        lex_total(a, b, less, i + 1);
    } else {
        assert forall|j: int| 0 <= j < i implies #[trigger] b[j] == a[j] by {
            assert(a[j] == b[j]);
        }
        assert(less(a[i], b[i]) || less(b[i], a[i]));
        if less(a[i], b[i]) {
            assert(parts_at(a, b, i, less));
        } else {
            assert(parts_at(b, a, i, less));
        }
    }
}

/// The components of paths are ordered.
proof fn parts_are_ordered()
    ensures
        orders(part_less()),
{
    let chars = char_less();
    assert(orders(chars));
    lex_orders(chars);
    let less = part_less();
    assert forall|a: Seq<char>, b: Seq<char>| #[trigger] less(a, b) || less(b, a) || a == b by {
        assert(lex_less(a, b, chars) || lex_less(b, a, chars) || a == b);
    }
}

/// Whether two paths name the same file: by their components, or by what they
/// resolve to.
pub open spec fn is_same_file(wanted: Wanted, file: FileProblems) -> bool {
    path::same_path(wanted.path@, file.path@) || match (wanted.resolved, file.resolved) {
        (Some(a), Some(b)) => path::same_path(a@, b@),
        _ => false,
    }
}

/// Whether a file is told of: the one that was asked for, or each with a
/// problem.
pub open spec fn is_told(wanted: Option<Wanted>, file: FileProblems) -> bool {
    match wanted {
        Some(wanted) => is_same_file(wanted, file),
        None => file.list@.len() > 0,
    }
}

/// Whether file `a` is told of before file `b`: by their paths, and by their
/// places when they have the same.
pub open spec fn told_before(files: Seq<FileProblems>, a: int, b: int) -> bool {
    path_less(files[a].path@, files[b].path@) || (!path_less(files[b].path@, files[a].path@) && a
        < b)
}

/// `order` is the files that are told of, in the order of their paths.
pub open spec fn is_telling(
    order: Seq<usize>,
    files: Seq<FileProblems>,
    wanted: Option<Wanted>,
    upto: int,
) -> bool {
    &&& forall|i: int|
        0 <= i < order.len() ==> (#[trigger] order[i]) < upto && is_told(
            wanted,
            files[order[i] as int],
        )
    &&& forall|k: usize|
        k < upto && is_told(wanted, files[k as int]) ==> #[trigger] order.contains(k)
    &&& forall|i: int, j: int|
        0 <= i < j < order.len() ==> told_before(
            files,
            (#[trigger] order[i]) as int,
            (#[trigger] order[j]) as int,
        )
}

/// The order of the files is one.
proof fn telling_orders(files: Seq<FileProblems>, a: int, b: int, c: int)
    ensures
        told_before(files, a, b) && told_before(files, b, c) ==> told_before(files, a, c),
        a != b && !told_before(files, a, b) ==> told_before(files, b, a),
{
    parts_are_ordered();
    let less = part_less();
    lex_orders(less);
    let p = path::components(files[a].path@);
    let q = path::components(files[b].path@);
    let r = path::components(files[c].path@);
    assert(!lex_less(p, q, less) ==> lex_less(q, p, less) || p == q);
    assert(!lex_less(q, r, less) ==> lex_less(r, q, less) || q == r);
    assert(!lex_less(p, r, less) ==> lex_less(r, p, less) || p == r);
}

/// See [`lex_less`], for texts.
fn text_before(a: &str, b: &str) -> (r: bool)
    ensures
        r == lex_less(a@, b@, char_less()),
{
    let x = chars_of(a);
    let y = chars_of(b);
    let mut i: usize = 0;
    proof {
        let chars = char_less();
        assert(orders(chars));
        lex_orders(chars);
    }
    while i < x.len() && i < y.len()
        invariant
            x@ == a@,
            y@ == b@,
            i <= x@.len(),
            i <= y@.len(),
            forall|j: int| 0 <= j < i ==> #[trigger] x@[j] == y@[j],
            forall|s: Seq<char>, t: Seq<char>|
                #[trigger] lex_less(s, t, char_less()) ==> !lex_less(t, s, char_less()),
        decreases x@.len() - i,
    {
        if x[i] < y[i] {
            assert(parts_at(a@, b@, i as int, char_less()));
            return true;
        }
        if y[i] < x[i] {
            assert forall|j: int| 0 <= j < i implies #[trigger] b@[j] == a@[j] by {
                assert(x@[j] == y@[j]);
            }
            assert(parts_at(b@, a@, i as int, char_less()));
            assert(lex_less(b@, a@, char_less()));
            return false;
        }
        i += 1;
    }
    if i < y.len() {
        assert(parts_at(a@, b@, i as int, char_less()));
        true
    } else {
        if i < x.len() {
            assert forall|j: int| 0 <= j < i implies #[trigger] b@[j] == a@[j] by {
                assert(x@[j] == y@[j]);
            }
            assert(parts_at(b@, a@, i as int, char_less()));
            assert(lex_less(b@, a@, char_less()));
        } else {
            assert(a@ =~= b@);
            assert(!lex_less(a@, a@, char_less()));
        }
        false
    }
}

/// See [`kind_of`].
fn part_kind(part: &str) -> (kind: u8)
    ensures
        kind == kind_of(part@),
{
    if same(part, "/") {
        0
    } else if same(part, ".") {
        1
    } else if same(part, "..") {
        2
    } else {
        3
    }
}

/// See [`part_less`].
fn part_before(a: &str, b: &str) -> (r: bool)
    ensures
        r == part_less()(a@, b@),
{
    let x = part_kind(a);
    let y = part_kind(b);
    x < y || (x == y && text_before(a, b))
}

/// See [`path_less`].
pub fn path_before(a: &str, b: &str) -> (r: bool)
    ensures
        r == path_less(a@, b@),
{
    let x = split_path(a);
    let y = split_path(b);
    let ghost p = path::components(a@);
    let ghost q = path::components(b@);
    let mut i: usize = 0;
    proof {
        parts_are_ordered();
        lex_orders(part_less());
    }
    while i < x.len() && i < y.len()
        invariant
            p == path::components(a@),
            q == path::components(b@),
            path::texts(x@) == p,
            path::texts(y@) == q,
            i <= x@.len(),
            i <= y@.len(),
            forall|j: int| 0 <= j < i ==> #[trigger] p[j] == q[j],
            forall|s: Seq<Seq<char>>, t: Seq<Seq<char>>|
                #[trigger] lex_less(s, t, part_less()) ==> !lex_less(t, s, part_less()),
            orders(part_less()),
        decreases x@.len() - i,
    {
        assert(p[i as int] == x@[i as int]@ && q[i as int] == y@[i as int]@);
        if part_before(x[i].as_str(), y[i].as_str()) {
            assert(parts_at(p, q, i as int, part_less()));
            return true;
        }
        if part_before(y[i].as_str(), x[i].as_str()) {
            assert forall|j: int| 0 <= j < i implies #[trigger] q[j] == p[j] by {
                assert(p[j] == q[j]);
            }
            assert(parts_at(q, p, i as int, part_less()));
            assert(lex_less(q, p, part_less()));
            return false;
        }
        assert(p[i as int] == q[i as int]) by {
            let less = part_less();
            assert(less(p[i as int], q[i as int]) || less(q[i as int], p[i as int])
                || p[i as int] == q[i as int]);
        }
        i += 1;
    }
    if i < y.len() {
        assert(parts_at(p, q, i as int, part_less()));
        true
    } else {
        if i < x.len() {
            assert forall|j: int| 0 <= j < i implies #[trigger] q[j] == p[j] by {
                assert(p[j] == q[j]);
            }
            assert(parts_at(q, p, i as int, part_less()));
            assert(lex_less(q, p, part_less()));
        } else {
            assert(p =~= q);
            assert(!lex_less(p, p, part_less()));
        }
        false
    }
}

/// See [`is_same_file`].
pub fn same_file(wanted: &Wanted, file: &FileProblems) -> (r: bool)
    ensures
        r == is_same_file(*wanted, *file),
{
    if path::path_eq(wanted.path.as_str(), file.path.as_str()) {
        return true;
    }
    match (&wanted.resolved, &file.resolved) {
        (Some(a), Some(b)) => path::path_eq(a.as_str(), b.as_str()),
        _ => false,
    }
}

/// The files that are told of, in the order of their paths: the one that was
/// asked for, or each with a problem. The order of the servers decides where
/// two have something to say about one file.
pub fn diagnostics(files: &Vec<FileProblems>, wanted: &Option<Wanted>) -> (order: Vec<usize>)
    ensures
        is_telling(order@, files@, *wanted, files@.len() as int),
{
    let mut order: Vec<usize> = Vec::new();
    let mut k: usize = 0;
    while k < files.len()
        invariant
            k <= files@.len(),
            is_telling(order@, files@, *wanted, k as int),
        decreases files@.len() - k,
    {
        let told = match wanted {
            Some(wanted) => same_file(wanted, &files[k]),
            None => files[k].list.len() > 0,
        };
        if told {
            let ghost before = order@;
            let mut at: usize = order.len();
            while at > 0 && path_before(files[k].path.as_str(), files[order[at - 1]].path.as_str())
                invariant
                    at <= order@.len(),
                    order@ == before,
                    k < files@.len(),
                    is_telling(before, files@, *wanted, k as int),
                    forall|i: int|
                        at <= i < order@.len() ==> told_before(
                            files@,
                            k as int,
                            (#[trigger] order@[i]) as int,
                        ),
                decreases at,
            {
                at -= 1;
            }
            order.insert(at, k);
            proof {
                told_grows(before, order@, files@, *wanted, at as int, k);
            }
        }
        k += 1;
    }
    order
}

/// Putting file `k` at `at` keeps the order.
proof fn told_grows(
    before: Seq<usize>,
    order: Seq<usize>,
    files: Seq<FileProblems>,
    wanted: Option<Wanted>,
    at: int,
    k: usize,
)
    requires
        is_telling(before, files, wanted, k as int),
        k < files.len(),
        0 <= at <= before.len(),
        order == before.insert(at, k),
        is_told(wanted, files[k as int]),
        forall|i: int|
            at <= i < before.len() ==> told_before(files, k as int, (#[trigger] before[i]) as int),
        at > 0 ==> !path_less(files[k as int].path@, files[before[at - 1] as int].path@),
    ensures
        is_telling(order, files, wanted, k + 1),
{
    assert forall|i: int, j: int| 0 <= i < j < order.len() implies told_before(
        files,
        (#[trigger] order[i]) as int,
        (#[trigger] order[j]) as int,
    ) by {
        let a = if i < at {
            i
        } else {
            i - 1
        };
        let b = if j < at {
            j
        } else {
            j - 1
        };
        if i == at {
            assert(order[j] == before[b]);
        } else if j == at {
            assert(order[i] == before[a]);
            let last = before[at - 1] as int;
            assert(before[at - 1] < k);
            assert(told_before(files, last, k as int));
            if i < at - 1 {
                assert(told_before(files, before[i] as int, last));
                telling_orders(files, before[i] as int, last, k as int);
            }
        } else {
            assert(order[i] == before[a] && order[j] == before[b]);
        }
    }
    assert forall|q: usize| q < k + 1 && is_told(wanted, files[q as int]) implies #[trigger] order.contains(
    q) by {
        if q == k {
            assert(order[at] == q);
        } else {
            assert(before.contains(q));
            let i = before.index_of(q);
            assert(order[if i < at {
                i
            } else {
                i + 1
            }] == q);
        }
    }
    assert forall|i: int| 0 <= i < order.len() implies (#[trigger] order[i]) < k + 1 && is_told(
        wanted,
        files[order[i] as int],
    ) by {
        if i < at {
            assert(order[i] == before[i]);
        } else if i > at {
            assert(order[i] == before[i - 1]);
        }
    }
}

} // verus!
