//! Paths as text, compared the way the file system names things: component
//! by component, so repeated and trailing slashes and inner `.` do not count.

use crate::text::{chars_of, same, text_of_chars};
use vstd::prelude::*;
use vstd::string::*;

verus! {

broadcast use vstd::string::group_string_axioms;

/// `s` without the slashes and the `/.` that add nothing at its end.
pub open spec fn tidy(s: Seq<char>) -> Seq<char>
    decreases s.len(),
{
    if s.len() > 1 && (s.last() == '/' || (s.last() == '.' && s[s.len() - 2] == '/')) {
        tidy(s.drop_last())
    } else {
        s
    }
}

/// How much of `s` comes before its last component: up to and with the last
/// slash.
pub open spec fn leaf_start(s: Seq<char>) -> int
    decreases s.len(),
{
    if s.len() == 0 || s.last() == '/' {
        s.len() as int
    } else {
        leaf_start(s.drop_last())
    }
}

/// Nothing to take a last component from: the empty path or the root.
pub open spec fn is_top(s: Seq<char>) -> bool {
    tidy(s).len() == 0 || tidy(s) == seq!['/']
}

/// The last component of a path that is not [`is_top`].
pub open spec fn leaf(s: Seq<char>) -> Seq<char> {
    tidy(s).skip(leaf_start(tidy(s)))
}

/// A path without its last component.
pub open spec fn trunk(s: Seq<char>) -> Seq<char> {
    tidy(tidy(s).take(leaf_start(tidy(s))))
}

/// What `s` names, as the names on the way to it. The root is the component
/// `/`.
pub open spec fn components(s: Seq<char>) -> Seq<Seq<char>>
    decreases s.len(),
{
    if tidy(s).len() == 0 {
        Seq::empty()
    } else if tidy(s) == seq!['/'] {
        seq![seq!['/']]
    } else {
        proof {
            trunk_is_shorter(s);
        }
        components(trunk(s)).push(leaf(s))
    }
}

/// The name of what a path leads to, when it ends in one.
pub open spec fn file_name_of(s: Seq<char>) -> Option<Seq<char>> {
    if is_top(s) || leaf(s) == seq!['.'] || leaf(s) == seq!['.', '.'] {
        None
    } else {
        Some(leaf(s))
    }
}

/// The path of what contains `s`.
pub open spec fn parent_of(s: Seq<char>) -> Option<Seq<char>> {
    if is_top(s) {
        None
    } else {
        Some(trunk(s))
    }
}

/// Two paths that name the same place without asking the file system.
pub open spec fn same_path(a: Seq<char>, b: Seq<char>) -> bool {
    components(a) == components(b)
}

/// Whether `s` is `base` or something below it.
pub open spec fn is_within(s: Seq<char>, base: Seq<char>) -> bool {
    components(base).is_prefix_of(components(s))
}

/// Whether `s` ends in the components of `tail`.
pub open spec fn ends_in(s: Seq<char>, tail: Seq<char>) -> bool {
    if is_absolute(tail) {
        same_path(s, tail)
    } else {
        components(tail).is_suffix_of(components(s))
    }
}

/// Whether `s` starts at the root.
pub open spec fn is_absolute(s: Seq<char>) -> bool {
    s.len() > 0 && s[0] == '/'
}

/// Components written out, one slash between two of them and none after the
/// root.
pub open spec fn spelled(parts: Seq<Seq<char>>) -> Seq<char>
    decreases parts.len(),
{
    if parts.len() == 0 {
        Seq::empty()
    } else if parts.len() == 1 {
        parts[0]
    } else {
        spelled(parts.drop_last()) + slash_after(parts.drop_last()) + parts.last()
    }
}

/// What stands between `parts` and the next component.
pub open spec fn slash_after(parts: Seq<Seq<char>>) -> Seq<char> {
    if parts == seq![seq!['/']] {
        Seq::empty()
    } else {
        seq!['/']
    }
}

/// `name` looked up from `base`.
pub open spec fn join_of(base: Seq<char>, name: Seq<char>) -> Seq<char> {
    if is_absolute(name) || base.len() == 0 {
        name
    } else if base.last() == '/' {
        base + name
    } else {
        base + seq!['/'] + name
    }
}

/// Where the extension of a file name starts: after its last dot, unless
/// that dot is the first character.
pub open spec fn last_dot(name: Seq<char>) -> int
    decreases name.len(),
{
    if name.len() == 0 {
        -1
    } else if name.last() == '.' {
        name.len() - 1
    } else {
        last_dot(name.drop_last())
    }
}

/// A file name without its extension.
pub open spec fn stem_of(name: Seq<char>) -> Seq<char> {
    if last_dot(name) > 0 {
        name.take(last_dot(name))
    } else {
        name
    }
}

/// The texts behind a list of strings.
pub open spec fn texts(list: Seq<String>) -> Seq<Seq<char>> {
    list.map_values(|s: String| s@)
}

/// Whether dropping `source` into `destination` is a move at all.
///
/// Refused: onto itself, anywhere inside itself, and where it already is.
pub open spec fn may_drop(source: Seq<char>, destination: Seq<char>) -> bool {
    &&& !is_within(destination, source)
    &&& !(parent_of(source) matches Some(folder) && same_path(folder, destination))
}

/// Tidying only cuts the end off, leaves something of a path that was not
/// empty, and has nothing left to do the second time.
pub proof fn tidy_is_prefix(s: Seq<char>)
    ensures
        tidy(s).len() <= s.len(),
        tidy(s) == s.take(tidy(s).len() as int),
        s.len() > 0 ==> tidy(s).len() > 0,
        tidy(tidy(s)) == tidy(s),
    decreases s.len(),
{
    if s.len() > 1 && (s.last() == '/' || (s.last() == '.' && s[s.len() - 2] == '/')) {
        tidy_is_prefix(s.drop_last());
        assert(s.take(tidy(s).len() as int) =~= s.drop_last().take(tidy(s).len() as int));
    } else {
        assert(s.take(s.len() as int) =~= s);
    }
}

/// The leaf starts behind the last slash.
pub proof fn leaf_start_bounds(s: Seq<char>)
    ensures
        0 <= leaf_start(s) <= s.len(),
        leaf_start(s) > 0 ==> s[leaf_start(s) - 1] == '/',
        forall|i: int| leaf_start(s) <= i < s.len() ==> s[i] != '/',
    decreases s.len(),
{
    if !(s.len() == 0 || s.last() == '/') {
        leaf_start_bounds(s.drop_last());
        assert forall|i: int| leaf_start(s) <= i < s.len() implies s[i] != '/' by {
            if i < s.len() - 1 {
                assert(s.drop_last()[i] == s[i]);
            }
        }
    }
}

/// A tidy path ends in a slash only when it is the root.
pub proof fn tidy_has_no_tail(s: Seq<char>)
    ensures
        tidy(s).len() > 1 ==> tidy(s).last() != '/',
    decreases s.len(),
{
    if s.len() > 1 && (s.last() == '/' || (s.last() == '.' && s[s.len() - 2] == '/')) {
        tidy_has_no_tail(s.drop_last());
    }
}

/// Below the top a path has a leaf, and the trunk is a shorter start of it.
pub proof fn trunk_is_shorter(s: Seq<char>)
    requires
        !is_top(s),
    ensures
        trunk(s).len() < s.len(),
        trunk(s) == s.take(trunk(s).len() as int),
        leaf(s).len() > 0,
{
    let t = tidy(s);
    tidy_is_prefix(s);
    tidy_has_no_tail(s);
    leaf_start_bounds(t);
    if t.len() == 1 {
        if t[0] == '/' {
            assert(t =~= seq!['/']);
        }
    }
    let head = t.take(leaf_start(t));
    tidy_is_prefix(head);
    assert(head.take(trunk(s).len() as int) =~= s.take(trunk(s).len() as int));
}

/// The end of `tidy(chars[..end])`.
fn tidied(chars: &Vec<char>, end: usize) -> (n: usize)
    requires
        end <= chars@.len(),
    ensures
        n <= end,
        chars@.take(n as int) == tidy(chars@.take(end as int)),
{
    let mut n: usize = end;
    while n > 1 && (chars[n - 1] == '/' || (chars[n - 1] == '.' && chars[n - 2] == '/'))
        invariant
            n <= end <= chars@.len(),
            tidy(chars@.take(n as int)) == tidy(chars@.take(end as int)),
        decreases n,
    {
        assert(chars@.take(n as int).drop_last() =~= chars@.take(n - 1));
        n -= 1;
    }
    n
}

/// `leaf_start(chars[..end])`.
fn leaf_from(chars: &Vec<char>, end: usize) -> (n: usize)
    requires
        end <= chars@.len(),
    ensures
        n == leaf_start(chars@.take(end as int)),
        n <= end,
{
    let mut n: usize = end;
    while n > 0 && chars[n - 1] != '/'
        invariant
            n <= end <= chars@.len(),
            leaf_start(chars@.take(n as int)) == leaf_start(chars@.take(end as int)),
        decreases n,
    {
        assert(chars@.take(n as int).drop_last() =~= chars@.take(n - 1));
        n -= 1;
    }
    n
}

/// The components of `chars[..end]`.
fn parts_of(chars: &Vec<char>, end: usize) -> (parts: Vec<String>)
    requires
        end <= chars@.len(),
    ensures
        texts(parts@) == components(chars@.take(end as int)),
    decreases end,
{
    let ghost s = chars@.take(end as int);
    let n = tidied(chars, end);
    let ghost t = chars@.take(n as int);
    proof {
        tidy_is_prefix(s);
    }
    if n == 0 {
        let parts: Vec<String> = Vec::new();
        assert(texts(parts@) =~= components(s));
        return parts;
    }
    if n == 1 && chars[0] == '/' {
        assert(t =~= seq!['/']);
        let mut parts: Vec<String> = Vec::new();
        let root = text_of_chars(chars, 0, 1);
        assert(root@ =~= seq!['/']);
        parts.push(root);
        assert(texts(parts@) =~= seq![seq!['/']]);
        return parts;
    }
    proof {
        if t =~= seq!['/'] {
            assert(t[0] == '/');
        }
        trunk_is_shorter(s);
        leaf_start_bounds(t);
    }
    let from = leaf_from(chars, n);
    let head = tidied(chars, from);
    assert(t.take(from as int) =~= chars@.take(from as int));
    assert(chars@.take(head as int) == trunk(s));
    let mut parts = parts_of(chars, head);
    let name = text_of_chars(chars, from, n);
    assert(name@ =~= leaf(s));
    let ghost before = parts@;
    parts.push(name);
    assert(texts(parts@) =~= texts(before).push(name@));
    parts
}

/// The components of a path.
pub fn split_path(path: &str) -> (parts: Vec<String>)
    ensures
        texts(parts@) == components(path@),
{
    let chars = chars_of(path);
    assert(chars@.take(chars@.len() as int) =~= path@);
    parts_of(&chars, chars.len())
}

/// Whether two lists of names agree on their first `n`.
fn agree(a: &Vec<String>, b: &Vec<String>, skip: usize, n: usize) -> (r: bool)
    requires
        skip + n <= a@.len(),
        n <= b@.len(),
    ensures
        r == (texts(a@).subrange(skip as int, skip + n) == texts(b@).take(n as int)),
{
    let mut i: usize = 0;
    while i < n
        invariant
            i <= n,
            skip + n <= a.len(),
            n <= b.len(),
            forall|j: int| 0 <= j < i ==> a@[skip + j]@ == b@[j]@,
        decreases n - i,
    {
        if a[skip + i] != b[i] {
            assert(texts(a@).subrange(skip as int, skip + n)[i as int] != texts(b@).take(
                n as int,
            )[i as int]);
            return false;
        }
        i += 1;
    }
    assert(texts(a@).subrange(skip as int, skip + n) =~= texts(b@).take(n as int));
    true
}

/// Whether two paths have the same components.
pub fn path_eq(a: &str, b: &str) -> (r: bool)
    ensures
        r == same_path(a@, b@),
{
    let x = split_path(a);
    let y = split_path(b);
    if x.len() != y.len() {
        assert(texts(x@).len() != texts(y@).len());
        return false;
    }
    assert(texts(x@).subrange(0, x@.len() as int) =~= texts(x@));
    assert(texts(y@).take(x@.len() as int) =~= texts(y@));
    agree(&x, &y, 0, x.len())
}

/// Whether `path` is `base` or something below it.
pub fn path_within(path: &str, base: &str) -> (r: bool)
    ensures
        r == is_within(path@, base@),
{
    let x = split_path(path);
    let y = split_path(base);
    if x.len() < y.len() {
        return false;
    }
    assert(texts(x@).subrange(0, y@.len() as int) =~= texts(x@).take(y@.len() as int));
    assert(texts(y@).take(y@.len() as int) =~= texts(y@));
    let r = agree(&x, &y, 0, y.len());
    proof {
        if r {
            assert forall|i: int| 0 <= i < texts(y@).len() implies texts(y@)[i] == texts(x@)[i] by {
                assert(texts(x@).take(y@.len() as int)[i] == texts(x@)[i]);
            }
            assert(texts(y@) =~= texts(x@).subrange(0, y@.len() as int));
        } else if texts(y@).is_prefix_of(texts(x@)) {
            assert(texts(y@) =~= texts(x@).subrange(0, y@.len() as int));
        }
    }
    r
}

/// Whether `path` ends in the components of `tail`.
pub fn path_ends_in(path: &str, tail: &str) -> (r: bool)
    ensures
        r == ends_in(path@, tail@),
{
    let chars = chars_of(tail);
    if chars.len() > 0 && chars[0] == '/' {
        return path_eq(path, tail);
    }
    let x = split_path(path);
    let y = split_path(tail);
    if x.len() < y.len() {
        return false;
    }
    let skip = x.len() - y.len();
    assert(texts(y@).take(y@.len() as int) =~= texts(y@));
    let r = agree(&x, &y, skip, y.len());
    proof {
        let tailed = texts(x@).subrange(skip as int, skip + y@.len());
        if texts(y@).is_suffix_of(texts(x@)) {
            assert(texts(y@) =~= tailed);
        }
    }
    r
}

/// The name of what `path` leads to.
pub fn file_name(path: &str) -> (name: Option<String>)
    ensures
        match (name, file_name_of(path@)) {
            (Some(name), Some(text)) => name@ == text,
            (None, None) => true,
            _ => false,
        },
{
    let chars = chars_of(path);
    let n = tidied(&chars, chars.len());
    assert(chars@.take(chars@.len() as int) =~= path@);
    let ghost t = chars@.take(n as int);
    if n == 0 {
        return None;
    }
    if n == 1 && chars[0] == '/' {
        assert(t =~= seq!['/']);
        return None;
    }
    let from = leaf_from(&chars, n);
    let name = text_of_chars(&chars, from, n);
    proof {
        if t =~= seq!['/'] {
            assert(t[0] == '/');
        }
        assert(name@ =~= leaf(path@));
        trunk_is_shorter(path@);
    }
    if n - from == 1 && chars[from] == '.' {
        assert(name@ =~= seq!['.']);
        return None;
    }
    if n - from == 2 && chars[from] == '.' && chars[from + 1] == '.' {
        assert(name@ =~= seq!['.', '.']);
        return None;
    }
    proof {
        if name@ =~= seq!['.'] {
            assert(name@[0] == '.');
        }
        if name@ =~= seq!['.', '.'] {
            assert(name@[0] == '.' && name@[1] == '.');
        }
    }
    Some(name)
}

/// The path of what contains `path`.
pub fn parent(path: &str) -> (folder: Option<String>)
    ensures
        match (folder, parent_of(path@)) {
            (Some(folder), Some(text)) => folder@ == text,
            (None, None) => true,
            _ => false,
        },
{
    let chars = chars_of(path);
    let n = tidied(&chars, chars.len());
    assert(chars@.take(chars@.len() as int) =~= path@);
    let ghost t = chars@.take(n as int);
    if n == 0 {
        return None;
    }
    if n == 1 && chars[0] == '/' {
        assert(t =~= seq!['/']);
        return None;
    }
    let from = leaf_from(&chars, n);
    let head = tidied(&chars, from);
    proof {
        if t =~= seq!['/'] {
            assert(t[0] == '/');
        }
        assert(t.take(from as int) =~= chars@.take(from as int));
        assert(chars@.subrange(0, head as int) =~= chars@.take(head as int));
    }
    Some(text_of_chars(&chars, 0, head))
}

/// The last component of `path` as shown to someone: its name, or the whole
/// path when it does not end in one.
pub open spec fn shown_name(path: Seq<char>) -> Seq<char> {
    match file_name_of(path) {
        Some(name) => name,
        None => path,
    }
}

/// See [`shown_name`].
pub fn display_name(path: &str) -> (name: String)
    ensures
        name@ == shown_name(path@),
{
    match file_name(path) {
        Some(name) => name,
        None => path.to_owned(),
    }
}

/// `name` looked up from `base`.
pub fn join(base: &str, name: &str) -> (path: String)
    ensures
        path@ == join_of(base@, name@),
{
    let head = chars_of(base);
    let tail = chars_of(name);
    if (tail.len() > 0 && tail[0] == '/') || head.len() == 0 {
        return name.to_owned();
    }
    let mut path: String = base.to_owned();
    if head[head.len() - 1] != '/' {
        path.push('/');
        assert(path@ =~= base@ + seq!['/']);
    }
    path.append(name);
    path
}

/// `path` as seen from `base`, when it is inside it.
pub fn strip_prefix(path: &str, base: &str) -> (rest: Option<String>)
    ensures
        rest is Some == is_within(path@, base@),
        rest matches Some(rest) ==> rest@ == spelled(
            components(path@).skip(components(base@).len() as int),
        ),
{
    if !path_within(path, base) {
        return None;
    }
    let x = split_path(path);
    let y = split_path(base);
    let mut rest: String = String::new();
    let mut i: usize = y.len();
    let ghost tail = components(path@).skip(y@.len() as int);
    assert(tail.take(0) =~= Seq::empty());
    while i < x.len()
        invariant
            y@.len() <= i <= x@.len(),
            texts(x@) == components(path@),
            tail == components(path@).skip(y@.len() as int),
            rest@ == spelled(tail.take(i - y@.len())),
        decreases x@.len() - i,
    {
        let ghost done = tail.take(i - y@.len());
        let ghost next = tail.take(i + 1 - y@.len());
        assert(next =~= done.push(texts(x@)[i as int]));
        assert(next.drop_last() =~= done);
        let at_root = i == y.len() + 1 && same(x[y.len()].as_str(), "/");
        proof {
            reveal_strlit("/");
            assert("/"@ =~= seq!['/']);
            if i == y@.len() + 1 {
                assert(done =~= seq![texts(x@)[y@.len() as int]]);
            }
            assert(at_root == (done == seq![seq!['/']])) by {
                if done == seq![seq!['/']] {
                    assert(done.len() == 1);
                    assert(done[0] == seq!['/']);
                }
            }
        }
        if i > y.len() && !at_root {
            rest.push('/');
        }
        rest.append(x[i].as_str());
        proof {
            if i == y@.len() {
                assert(rest@ =~= next[0]);
            } else {
                assert(rest@ =~= spelled(done) + slash_after(done) + next.last());
            }
        }
        i += 1;
    }
    assert(tail.take(tail.len() as int) =~= tail);
    Some(rest)
}

/// A file name without its extension.
pub fn file_stem(name: &str) -> (stem: String)
    ensures
        stem@ == stem_of(name@),
{
    let chars = chars_of(name);
    let mut n: usize = chars.len();
    assert(chars@.take(n as int) =~= name@);
    while n > 0 && chars[n - 1] != '.'
        invariant
            n <= chars@.len(),
            last_dot(chars@.take(n as int)) == last_dot(chars@),
        decreases n,
    {
        assert(chars@.take(n as int).drop_last() =~= chars@.take(n - 1));
        n -= 1;
    }
    if n > 1 {
        assert(chars@.subrange(0, n - 1) =~= chars@.take(n - 1));
        text_of_chars(&chars, 0, n - 1)
    } else {
        name.to_owned()
    }
}

/// Whether `source` may be dropped into the directory `destination`.
///
/// Three refusals, and each is a way to lose a directory. Dropping a folder
/// on itself, or anywhere inside itself, asks the file system to make a path
/// its own descendant. Dropping something back where it already lives is a
/// no-op worth refusing so the drop target never lights up for it.
pub fn valid_drop(source: &str, destination: &str) -> (ok: bool)
    ensures
        ok == may_drop(source@, destination@),
{
    if path_within(destination, source) {
        return false;
    }
    match parent(source) {
        Some(folder) => !path_eq(folder.as_str(), destination),
        None => true,
    }
}

/// Whether a change to `path` can change what Git ignores.
pub open spec fn sets_ignore_rules(path: Seq<char>) -> bool {
    (file_name_of(path) matches Some(name) && name == ".gitignore"@) || ends_in(
        path,
        ".git/info/exclude"@,
    )
}

/// See [`sets_ignore_rules`].
pub fn changes_ignore_rules(path: &str) -> (r: bool)
    ensures
        r == sets_ignore_rules(path@),
{
    let named = match file_name(path) {
        Some(name) => same(name.as_str(), ".gitignore"),
        None => false,
    };
    named || path_ends_in(path, ".git/info/exclude")
}

/// A folder goes neither onto itself nor anywhere below itself.
pub proof fn a_folder_stays_out_of_itself(source: Seq<char>, destination: Seq<char>)
    requires
        is_within(destination, source),
    ensures
        !may_drop(source, destination),
{
}

/// Something is not dropped where it already is.
pub proof fn an_item_is_not_dropped_where_it_is(source: Seq<char>)
    requires
        parent_of(source) is Some,
    ensures
        !may_drop(source, parent_of(source)->0),
{
}

/// The containing folder has all the components but the last.
pub proof fn parent_drops_the_last(path: Seq<char>)
    requires
        parent_of(path) is Some,
    ensures
        components(parent_of(path)->0) == components(path).drop_last(),
        is_within(path, parent_of(path)->0),
{
    trunk_is_shorter(path);
    assert(components(path).drop_last() =~= components(trunk(path)));
    assert(components(trunk(path)) =~= components(path).subrange(
        0,
        components(trunk(path)).len() as int,
    ));
}

/// Being the same place is all that matters: two spellings of one path may
/// be dropped in the same places and take the same drops.
pub proof fn a_drop_does_not_depend_on_spelling(
    source: Seq<char>,
    other: Seq<char>,
    destination: Seq<char>,
)
    requires
        same_path(source, other),
    ensures
        may_drop(destination, source) == may_drop(destination, other),
        may_drop(source, destination) == may_drop(other, destination),
{
    assert(components(source).len() == components(other).len());
    if parent_of(source) is Some {
        trunk_is_shorter(source);
        assert(components(source).drop_last() =~= components(trunk(source)));
    }
    if parent_of(other) is Some {
        trunk_is_shorter(other);
        assert(components(other).drop_last() =~= components(trunk(other)));
    }
    if parent_of(source) is None && parent_of(other) is Some {
        if tidy(source).len() > 0 {
            assert(components(other).last() == seq!['/']);
            leaf_start_bounds(tidy(other));
            assert(leaf(other)[0] == '/');
            assert(tidy(other)[leaf_start(tidy(other))] == '/');
        }
    }
    if parent_of(other) is None && parent_of(source) is Some {
        if tidy(other).len() > 0 {
            assert(components(source).last() == seq!['/']);
            leaf_start_bounds(tidy(source));
            assert(leaf(source)[0] == '/');
            assert(tidy(source)[leaf_start(tidy(source))] == '/');
        }
    }
}

/// Tidying twice is tidying once.
proof fn tidy_twice(s: Seq<char>)
    ensures
        tidy(tidy(s)) == tidy(s),
    decreases s.len(),
{
    if s.len() > 1 && (s.last() == '/' || (s.last() == '.' && s[s.len() - 2] == '/')) {
        tidy_twice(s.drop_last());
    }
}

/// Tidying does not change what a path names.
proof fn tidy_names_the_same(s: Seq<char>)
    ensures
        components(tidy(s)) == components(s),
{
    tidy_twice(s);
}

/// The last component of a text that ends in a plain name after a slash starts
/// after that slash.
proof fn leaf_after_slash(base: Seq<char>, name: Seq<char>)
    requires
        forall|i: int| 0 <= i < name.len() ==> #[trigger] name[i] != '/',
    ensures
        leaf_start(base + seq!['/'] + name) == base.len() + 1,
    decreases name.len(),
{
    let whole = base + seq!['/'] + name;
    if name.len() == 0 {
        assert(whole.last() == '/');
    } else {
        let less = name.drop_last();
        leaf_after_slash(base, less);
        assert(whole.drop_last() =~= base + seq!['/'] + less);
        assert(whole.last() == name[name.len() - 1]);
    }
}

/// A plain name joined to a folder names something in that folder: its name is
/// that name, and what contains it is the folder.
pub proof fn a_joined_name_is_in_its_folder(base: Seq<char>, name: Seq<char>)
    requires
        base.len() > 0,
        base.last() != '/',
        name.len() > 0,
        name != seq!['.'],
        name != seq!['.', '.'],
        forall|i: int| 0 <= i < name.len() ==> #[trigger] name[i] != '/',
    ensures
        file_name_of(join_of(base, name)) == Some(name),
        parent_of(join_of(base, name)) is Some,
        same_path(parent_of(join_of(base, name))->0, base),
        components(join_of(base, name)) == components(base).push(name),
{
    let whole = base + seq!['/'] + name;
    assert(name[0] != '/');
    assert(join_of(base, name) == whole);
    assert(whole.last() == name.last());
    assert(name.last() == name[name.len() - 1]);
    if whole.last() == '.' && whole[whole.len() - 2] == '/' {
        if name.len() >= 2 {
            assert(whole[whole.len() - 2] == name[name.len() - 2]);
        } else {
            assert(name =~= seq!['.']);
        }
    }
    assert(tidy(whole) == whole);
    leaf_after_slash(base, name);
    assert(whole.skip((base.len() + 1) as int) =~= name);
    let folder = base + seq!['/'];
    assert(whole.take((base.len() + 1) as int) =~= folder);
    assert(folder.drop_last() =~= base);
    assert(tidy(folder) == tidy(base));
    assert(whole != seq!['/']) by {
        assert(whole.len() >= 3);
    }
    tidy_names_the_same(base);
    assert(trunk(whole) == tidy(base));
    assert(components(whole) == components(trunk(whole)).push(leaf(whole)));
}

} // verus!
