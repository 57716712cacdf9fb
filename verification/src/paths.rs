//! Paths, as texts: which of them lie inside a directory.
//!
//! What a path is made of differs from system to system. What is said here holds
//! on Unix, where slashes alone separate components, as well as on Windows, where
//! backslashes do so too and a path may start with a drive.

use crate::presets::optional_text;
use crate::text::{ascii_lower, occurs};
use vstd::prelude::*;

verus! {

/// Whether `c` separates components of a path on one of the systems.
pub open spec fn separator(c: char) -> bool {
    c == '/' || c == '\\'
}

/// Whether a path is written plainly: with single slashes between components
/// that are not `.`, no slash at its end, and no character that is special on
/// one of the systems.
pub open spec fn plain_path(path: Seq<char>) -> bool {
    &&& path.len() > 0
    &&& path.last() != '/'
    &&& forall|i: int|
        0 <= i < path.len() ==> {
            &&& #[trigger] path[i] != '\\'
            &&& path[i] != ':'
            &&& path[i] == '/' ==> path[i + 1] != '/'
            &&& path[i] == '.' && (i == 0 || path[i - 1] == '/') ==> i + 1 < path.len() && path[i
                + 1] != '/'
        }
}

/// Where the first slash of `path` stands, or the length of `path` if there is
/// none.
pub open spec fn first_slash(path: Seq<char>) -> nat
    decreases path.len(),
{
    if path.len() == 0 || path[0] == '/' {
        0
    } else {
        1 + first_slash(path.skip(1))
    }
}

/// The names between the slashes of `path`. Nothing between two slashes, and the
/// name `.`, do not count.
pub open spec fn path_names(path: Seq<char>) -> Seq<Seq<char>>
    decreases path.len(),
{
    let n = first_slash(path);
    let head = path.take(n as int);
    let others = if n < path.len() {
        path_names(path.skip(n as int + 1))
    } else {
        Seq::empty()
    };
    if head.len() == 0 || head == seq!['.'] {
        others
    } else {
        seq![head] + others
    }
}

/// `path` without the slashes that it ends with.
pub open spec fn without_final_slashes(path: Seq<char>) -> Seq<char>
    decreases path.len(),
{
    if path.len() > 0 && path.last() == '/' {
        without_final_slashes(path.drop_last())
    } else {
        path
    }
}

/// `path` without the slashes that it starts with.
pub open spec fn without_first_slashes(path: Seq<char>) -> Seq<char>
    decreases path.len(),
{
    if path.len() > 0 && path[0] == '/' {
        without_first_slashes(path.skip(1))
    } else {
        path
    }
}

/// `path` without the slashes at either end.
pub open spec fn without_outer_slashes(path: Seq<char>) -> Seq<char> {
    without_first_slashes(without_final_slashes(path))
}

/// Whether `path` starts with two separators, as network and device paths do.
pub open spec fn two_separators(path: Seq<char>) -> bool {
    path.len() > 1 && separator(path[0]) && separator(path[1])
}

/// Whether `path` may start from the current directory of a drive.
pub open spec fn drive_relative(path: Seq<char>) -> bool {
    path.len() > 2 && path[1] == ':' && !separator(path[2])
}

/// Whether `base` is a directory whose components are separated alike on both
/// systems, up to backslashes: no bare drive, no directory from the current one of
/// a drive, and no network or device path.
pub open spec fn ordinary(base: Seq<char>) -> bool {
    &&& base.len() > 0
    &&& base.last() != ':'
    &&& !two_separators(base)
    &&& !drive_relative(base)
}

/// `base` with a slash at its end.
pub open spec fn with_slash(base: Seq<char>) -> Seq<char> {
    if base.len() > 0 && base.last() == '/' {
        base
    } else {
        base.push('/')
    }
}

/// `path` as seen from the directory `base`, by the text of both.
pub open spec fn below(path: Seq<char>, base: Seq<char>) -> Option<Seq<char>> {
    if path == base {
        Some(Seq::empty())
    } else if with_slash(base).is_prefix_of(path) {
        Some(path.skip(with_slash(base).len() as int))
    } else {
        None
    }
}

/// `path` with slashes for backslashes.
pub open spec fn slashes(path: Seq<char>) -> Seq<char> {
    path.map_values(
        |c: char|
            if c == '\\' {
                '/'
            } else {
                c
            },
    )
}

/// `path` with slashes for backslashes, and a drive letter in the small form.
pub open spec fn forward(path: Seq<char>) -> Seq<char> {
    if path.len() > 1 && path[1] == ':' {
        slashes(path.update(0, ascii_lower(path[0])))
    } else {
        slashes(path)
    }
}

/// Whether `path` is `inner` in the directory `base`, on both systems.
pub open spec fn lies_inside(path: Seq<char>, base: Seq<char>, inner: Seq<char>) -> bool {
    ||| path == base && !drive_relative(base) && inner.len() == 0
    ||| {
        &&& ordinary(base)
        &&& !two_separators(path)
        &&& below(path, base) matches Some(tail) && inner == without_outer_slashes(tail)
        &&& inner.len() == 0 || plain_path(inner)
    }
}

/// Whether `path` goes on after the directory `base` with `tail`, in which slashes
/// alone can separate names.
pub open spec fn continues(path: Seq<char>, base: Seq<char>, tail: Seq<char>) -> bool {
    &&& ordinary(base)
    &&& path == with_slash(base) + tail
    &&& !two_separators(path)
    &&& !tail.contains('\\')
}

/// Whether `path` lies outside the directory `base`, on both systems. It lacks the
/// colon of `base`; or one of them starts at the root and the other does not; or
/// its names do not start with those of `base`, even where backslashes separate
/// names and the case of a drive letter makes no difference.
pub open spec fn lies_outside(path: Seq<char>, base: Seq<char>) -> bool {
    ||| base.contains(':') && !path.contains(':')
    ||| ordinary(base) && separator(base[0]) != (path.len() > 0 && separator(path[0]))
    ||| ordinary(base) && !path_names(forward(base)).is_prefix_of(path_names(forward(path)))
}

/// Whether the names of `path` are those of `base` and then those of `rest`, where
/// backslashes separate names too.
pub open spec fn splits_into(path: Seq<char>, base: Seq<char>, rest: Seq<char>) -> bool {
    path_names(forward(path)) == path_names(forward(base)) + path_names(slashes(rest))
}

/// Whether `rest` is what stripping `base` from `path` may give.
pub open spec fn may_strip_to(
    path: Seq<char>,
    base: Seq<char>,
    rest: Option<Seq<char>>,
) -> bool {
    &&& forall|inner: Seq<char>| #[trigger]
        lies_inside(path, base, inner) ==> rest == Some(inner)
    &&& forall|tail: Seq<char>| #[trigger]
        continues(path, base, tail) ==> (rest matches Some(r) && path_names(r) == path_names(tail)
            && occurs(tail, r))
    &&& lies_outside(path, base) ==> rest is None
    &&& ordinary(base) && rest is Some ==> splits_into(path, base, rest->0)
}

/// `std::path::Path::strip_prefix`: the part of the path after the components of
/// `base`, if it starts with them. Repeated separators, separators at the end and
/// components `.` do not count.
///
/// Whether a backslash separates components, and whether a drive starts a path,
/// differs between Unix and Windows, so what is claimed is what holds on both. Left
/// unsaid is whether a path such as `C:\p\build` lies below `C:\p`; which separators
/// and `.` around the remaining names are kept where a path has such in excess,
/// slashes at either end aside; and all but the clauses on equal paths and on the
/// colon for a base that is a bare drive, starts from the current directory of a
/// drive, or is a network or device path.
#[verifier::external_body]
pub(crate) fn strip_base(path: &str, base: &str) -> (rest: Option<String>)
    ensures
        may_strip_to(path@, base@, optional_text(rest)),
{
    let rest = std::path::Path::new(path).strip_prefix(base).ok()?;
    Some(rest.to_string_lossy().into_owned())
}

proof fn lemma_final_slashes_after(front: Seq<char>, tail: Seq<char>)
    ensures
        without_final_slashes(front + tail) == if without_final_slashes(tail).len() > 0 {
            front + without_final_slashes(tail)
        } else {
            without_final_slashes(front)
        },
    decreases tail.len(),
{
    if tail.len() == 0 {
        assert(front + tail =~= front);
    } else {
        assert((front + tail).last() == tail.last());
        if tail.last() == '/' {
            assert((front + tail).drop_last() =~= front + tail.drop_last());
            lemma_final_slashes_after(front, tail.drop_last());
        }
    }
}

proof fn lemma_final_slashes_start(path: Seq<char>)
    ensures
        without_final_slashes(path).len() <= path.len(),
        forall|i: int|
            0 <= i < without_final_slashes(path).len() ==> #[trigger] without_final_slashes(path)[i]
                == path[i],
        without_final_slashes(path).len() > 0 ==> without_final_slashes(path).last() != '/',
    decreases path.len(),
{
    if path.len() > 0 && path.last() == '/' {
        lemma_final_slashes_start(path.drop_last());
    }
}

/// What follows a directory and a slash lies inside it, without the slashes at
/// either end.
pub proof fn lemma_after_slash_lies_inside(base: Seq<char>, tail: Seq<char>)
    requires
        ordinary(base),
        !two_separators(base.push('/')),
        plain_path(without_outer_slashes(tail)),
    ensures
        lies_inside(base.push('/') + tail, base, without_outer_slashes(tail)),
{
    let path = base.push('/') + tail;
    let n = base.len() as int;
    assert(path[0] == base.push('/')[0] && path[1] == base.push('/')[1]);
    if base.last() == '/' {
        let rest = seq!['/'] + tail;
        assert(path.take(n) =~= base);
        assert(path.skip(n) =~= rest);
        let inner = without_final_slashes(tail);
        lemma_final_slashes_after(seq!['/'], tail);
        assert(inner.len() > 0);
        assert((seq!['/'] + inner).skip(1) =~= inner);
        assert(without_outer_slashes(rest) == without_outer_slashes(tail));
    } else {
        assert(path.take(n + 1) =~= base.push('/'));
        assert(path.skip(n + 1) =~= tail);
    }
}

proof fn lemma_first_slash(path: Seq<char>)
    ensures
        first_slash(path) <= path.len(),
        first_slash(path) < path.len() ==> path[first_slash(path) as int] == '/',
        forall|i: int| 0 <= i < first_slash(path) ==> #[trigger] path[i] != '/',
    decreases path.len(),
{
    if path.len() > 0 && path[0] != '/' {
        let rest = path.skip(1);
        lemma_first_slash(rest);
        if first_slash(rest) < rest.len() {
            assert(rest[first_slash(rest) as int] == path[first_slash(rest) as int + 1]);
        }
        assert forall|i: int| 0 <= i < first_slash(path) implies #[trigger] path[i] != '/' by {
            if i > 0 {
                assert(rest[i - 1] == path[i]);
            }
        }
    }
}

proof fn lemma_first_slash_at(path: Seq<char>, n: int)
    requires
        0 <= n <= path.len(),
        n < path.len() ==> path[n] == '/',
        forall|i: int| 0 <= i < n ==> #[trigger] path[i] != '/',
    ensures
        first_slash(path) == n,
{
    lemma_first_slash(path);
    let m = first_slash(path) as int;
    if m < n {
        assert(path[m] != '/');
    }
    if n < m {
        assert(path[n] != '/');
    }
}

proof fn lemma_names_concat(a: Seq<char>, b: Seq<char>)
    ensures
        path_names(a + "/"@ + b) == path_names(a) + path_names(b),
    decreases a.len(),
{
    reveal_strlit("/");
    let whole = a + "/"@ + b;
    let n = first_slash(a) as int;
    lemma_first_slash(a);
    assert forall|i: int| 0 <= i < n implies #[trigger] whole[i] != '/' by {
        assert(whole[i] == a[i]);
    }
    lemma_first_slash_at(whole, n);
    assert(whole.take(n) =~= a.take(n));
    if n < a.len() {
        let rest = a.skip(n + 1);
        assert(whole.skip(n + 1) =~= rest + "/"@ + b);
        lemma_names_concat(rest, b);
        assert(path_names(whole) =~= path_names(a) + path_names(b));
    } else {
        assert(whole.skip(n + 1) =~= b);
        assert(path_names(whole) =~= path_names(a) + path_names(b));
    }
}

proof fn lemma_names_with_slash(base: Seq<char>, tail: Seq<char>)
    ensures
        path_names(with_slash(base) + tail) == path_names(base) + path_names(tail),
{
    reveal_strlit("/");
    if base.len() > 0 && base.last() == '/' {
        let front = base.drop_last();
        assert(base =~= front + "/"@ + Seq::<char>::empty());
        lemma_names_concat(front, Seq::empty());
        assert(path_names(Seq::<char>::empty()).len() == 0);
        assert(path_names(base) =~= path_names(front));
        assert(base + tail =~= front + "/"@ + tail);
        lemma_names_concat(front, tail);
    } else {
        assert(base.push('/') + tail =~= base + "/"@ + tail);
        lemma_names_concat(base, tail);
    }
}

/// What goes on after a directory does not lie outside it, and its names are those
/// of the directory and then those that follow.
pub proof fn law_inside_is_not_outside(path: Seq<char>, base: Seq<char>, tail: Seq<char>)
    requires
        continues(path, base, tail),
    ensures
        !lies_outside(path, base),
        splits_into(path, base, tail),
{
    let n = base.len() as int;
    let joint = with_slash(base);
    assert(path[0] == base[0]);
    if base.contains(':') {
        let i = choose|i: int| 0 <= i < base.len() && base[i] == ':';
        assert(path[i] == ':');
    }
    assert(slashes(tail) =~= tail) by {
        assert forall|i: int| 0 <= i < tail.len() implies slashes(tail)[i] == tail[i] by {
            assert(tail.contains(tail[i]));
        }
    }
    let from = forward(base);
    if n > 1 {
        assert(path[1] == base[1]);
    }
    if base.last() == '/' {
        assert(forward(path) =~= from + tail) by {
            assert forall|i: int| 0 <= i < path.len() implies #[trigger] forward(path)[i] == (from
                + tail)[i] by {
                if i >= n {
                    assert(slashes(tail)[i - n] == tail[i - n]);
                }
            }
        }
        assert(from.last() == '/');
        lemma_names_with_slash(from, tail);
    } else {
        assert(forward(path) =~= from.push('/') + tail) by {
            assert forall|i: int| 0 <= i < path.len() implies #[trigger] forward(path)[i] == (
            from.push('/') + tail)[i] by {
                if i > n {
                    assert(slashes(tail)[i - n - 1] == tail[i - n - 1]);
                }
            }
        }
        reveal_strlit("/");
        assert(from.push('/') + tail =~= from + "/"@ + tail);
        lemma_names_concat(from, tail);
    }
}

proof fn lemma_plain_after_slash(path: Seq<char>, n: int)
    requires
        plain_path(path),
        0 <= n < path.len(),
        path[n] == '/',
    ensures
        plain_path(path.skip(n + 1)),
        path.skip(n + 1)[0] != '/',
{
    let rest = path.skip(n + 1);
    assert(n != path.len() - 1);
    assert(rest[0] == path[n + 1]);
    assert(rest.last() == path.last());
    assert forall|i: int| 0 <= i < rest.len() implies {
        &&& #[trigger] rest[i] != '\\'
        &&& rest[i] != ':'
        &&& rest[i] == '/' ==> rest[i + 1] != '/'
        &&& rest[i] == '.' && (i == 0 || rest[i - 1] == '/') ==> i + 1 < rest.len() && rest[i + 1]
            != '/'
    } by {
        assert(rest[i] == path[n + 1 + i]);
        if i + 1 < rest.len() {
            assert(rest[i + 1] == path[n + 2 + i]);
        }
        if i > 0 {
            assert(rest[i - 1] == path[n + i]);
        }
    }
}

proof fn lemma_plain_head(path: Seq<char>)
    requires
        plain_path(path),
        path[0] != '/',
    ensures
        ({
            let n = first_slash(path) as int;
            let rest = path.skip(n + 1);
            &&& 0 < n <= path.len()
            &&& path.take(n) != seq!['.']
            &&& n < path.len() ==> plain_path(rest) && rest[0] != '/'
        }),
{
    let n = first_slash(path) as int;
    lemma_first_slash(path);
    if path.take(n) == seq!['.'] {
        assert(path.take(n).len() == 1);
        assert(n == 1);
        assert(path.take(n)[0] == path[0]);
    }
    if n < path.len() {
        lemma_plain_after_slash(path, n);
    }
}

proof fn lemma_plain_rest(path: Seq<char>)
    requires
        plain_path(path),
        path[0] == '/',
    ensures
        plain_path(path.skip(1)),
        path.skip(1)[0] != '/',
        path_names(path) == path_names(path.skip(1)),
{
    lemma_plain_after_slash(path, 0);
    assert(path.take(0).len() == 0);
}

proof fn lemma_below_by_names(path: Seq<char>, base: Seq<char>)
    requires
        plain_path(path),
        plain_path(base),
        (path[0] == '/') == (base[0] == '/'),
        path_names(base).is_prefix_of(path_names(path)),
    ensures
        below(path, base) is Some,
    decreases base.len(),
{
    assert(with_slash(base) == base.push('/'));
    if base[0] == '/' {
        lemma_plain_rest(path);
        lemma_plain_rest(base);
        let inner_path = path.skip(1);
        let inner_base = base.skip(1);
        lemma_below_by_names(inner_path, inner_base);
        if inner_path == inner_base {
            assert(path =~= seq!['/'] + inner_path);
            assert(base =~= seq!['/'] + inner_base);
        } else {
            assert(base[base.len() - 1] == inner_base.last());
            assert(inner_base.push('/') =~= inner_path.take(base.len() as int));
            assert(base.push('/') =~= seq!['/'] + inner_base.push('/'));
            assert(path.take(base.len() as int + 1) =~= seq!['/'] + inner_path.take(
                base.len() as int,
            ));
        }
    } else {
        lemma_plain_head(path);
        lemma_plain_head(base);
        lemma_first_slash(path);
        lemma_first_slash(base);
        let n = first_slash(base) as int;
        let m = first_slash(path) as int;
        let wanted = path_names(base);
        let found = path_names(path);
        assert(wanted[0] == base.take(n));
        assert(found[0] == path.take(m));
        assert(found.take(wanted.len() as int)[0] == found[0]);
        assert(path.take(m) == base.take(n));
        assert(m == n);
        assert forall|i: int| 0 <= i < n implies path[i] == base[i] by {
            assert(path.take(m)[i] == path[i]);
            assert(base.take(n)[i] == base[i]);
        }
        if n < base.len() {
            let others = base.skip(n + 1);
            lemma_some_name(others);
            assert(wanted.len() == 1 + path_names(others).len());
            assert(m < path.len());
            let rest = path.skip(n + 1);
            assert(found =~= seq![path.take(m)] + path_names(rest));
            assert(wanted =~= seq![base.take(n)] + path_names(others));
            assert(path_names(others).is_prefix_of(path_names(rest))) by {
                let k = path_names(others).len() as int;
                assert forall|i: int| 0 <= i < k implies path_names(others)[i] == path_names(
                    rest,
                )[i] by {
                    assert(wanted[i + 1] == found.take(wanted.len() as int)[i + 1]);
                }
                assert(path_names(others) =~= path_names(rest).take(k));
            }
            lemma_below_by_names(rest, others);
            if rest == others {
                assert(path =~= path.take(n) + seq!['/'] + rest);
                assert(base =~= base.take(n) + seq!['/'] + others);
            } else {
                assert(base[base.len() - 1] == others.last());
                let k = others.len() as int + 1;
                assert(others.push('/') =~= rest.take(k));
                let head = base.take(n).push('/');
                assert(base.push('/') =~= head + others.push('/'));
                assert(path.take(base.len() as int + 1) =~= head + rest.take(k));
            }
        } else {
            assert(base.take(n) =~= base);
            if m == path.len() {
                assert(path.take(m) =~= path);
            } else {
                assert(path.take(n + 1) =~= base.push('/'));
            }
        }
    }
}

proof fn lemma_some_name(path: Seq<char>)
    requires
        plain_path(path),
        path[0] != '/',
    ensures
        path_names(path).len() > 0,
{
    lemma_plain_head(path);
}

proof fn lemma_names_without_final_slashes(path: Seq<char>)
    ensures
        path_names(without_final_slashes(path)) == path_names(path),
    decreases path.len(),
{
    if path.len() > 0 && path.last() == '/' {
        reveal_strlit("/");
        let shorter = path.drop_last();
        assert(path =~= shorter + "/"@ + Seq::<char>::empty());
        lemma_names_concat(shorter, Seq::empty());
        assert(path_names(Seq::<char>::empty()).len() == 0);
        assert(path_names(path) =~= path_names(shorter));
        lemma_names_without_final_slashes(shorter);
    }
}

/// Where path and directory are both written plainly, stripping goes by their
/// text, but for slashes at the end of the path.
pub proof fn law_plain_paths_are_stripped_as_text(
    path: Seq<char>,
    base: Seq<char>,
    rest: Option<Seq<char>>,
)
    requires
        may_strip_to(path, base, rest),
        plain_path(without_final_slashes(path)),
        plain_path(base),
    ensures
        rest == below(without_final_slashes(path), base),
{
    let place = without_final_slashes(path);
    let n = base.len() as int;
    lemma_final_slashes_start(path);
    assert(with_slash(base) == base.push('/'));
    assert(base[n - 1] == base.last());
    assert(base[0] != '\\');
    if base.len() > 1 {
        assert(base[1] != '\\' && base[1] != ':');
    }
    assert(ordinary(base));
    match below(place, base) {
        Some(inner) => {
            lemma_plain_lies_inside(path, base, inner);
        },
        None => {
            assert(forward(base) =~= base);
            assert(place[0] == path[0]);
            lemma_plain_path_with_slashes(path);
            if path.len() > 1 {
                assert(path[1] != ':');
            }
            assert(forward(path) =~= path);
            lemma_names_without_final_slashes(path);
            assert(place[0] != '\\');
            if (path[0] == '/') == (base[0] == '/') && path_names(base).is_prefix_of(
                path_names(place),
            ) {
                lemma_below_by_names(place, base);
            }
            assert(lies_outside(path, base));
        },
    }
}

proof fn lemma_plain_lies_inside(path: Seq<char>, base: Seq<char>, inner: Seq<char>)
    requires
        plain_path(without_final_slashes(path)),
        plain_path(base),
        ordinary(base),
        below(without_final_slashes(path), base) == Some(inner),
    ensures
        lies_inside(path, base, inner),
{
    let place = without_final_slashes(path);
    let n = base.len() as int;
    let joint = base.push('/');
    lemma_final_slashes_start(path);
    assert(base[n - 1] == base.last());
    assert(base[0] != '\\');
    if path != base {
        if place == base {
            assert(path.take(n) =~= base);
            lemma_final_slashes_exceed(path);
            assert(path[n] == '/');
        } else {
            assert(place.take(n + 1) == joint);
            assert(place[n] == joint[n]);
        }
        assert(path.take(n + 1) =~= joint) by {
            assert forall|i: int| 0 <= i < n implies path[i] == base[i] by {
                if place != base {
                    assert(place.take(n + 1)[i] == place[i]);
                    assert(joint[i] == base[i]);
                }
            }
        }
        let tail = path.skip(n + 1);
        assert(path =~= joint + tail);
        lemma_final_slashes_after(joint, tail);
        assert(joint.drop_last() =~= base);
        assert(without_final_slashes(base) == base);
        assert(without_final_slashes(joint) == base);
        let end = without_final_slashes(tail);
        assert(path[0] == base[0]);
        assert(path[1] == joint[1]);
        if end.len() > 0 {
            assert(place == joint + end);
            assert(inner =~= end);
            assert(end[0] == place[n + 1]);
            assert(place[n] == '/');
            assert(place[n + 1] != '/');
            lemma_plain_after_slash(place, n);
        } else {
            assert(inner.len() == 0);
        }
        assert(inner =~= without_outer_slashes(tail));
    }
}

proof fn lemma_final_slashes_exceed(path: Seq<char>)
    ensures
        forall|i: int|
            without_final_slashes(path).len() <= i < path.len() ==> #[trigger] path[i] == '/',
    decreases path.len(),
{
    if path.len() > 0 && path.last() == '/' {
        lemma_final_slashes_exceed(path.drop_last());
        assert forall|i: int| without_final_slashes(path).len() <= i < path.len() implies
            #[trigger] path[i] == '/' by {
            if i < path.len() - 1 {
                assert(path.drop_last()[i] == path[i]);
            }
        }
    }
}

proof fn lemma_plain_path_with_slashes(path: Seq<char>)
    requires
        plain_path(without_final_slashes(path)),
    ensures
        forall|i: int| 0 <= i < path.len() ==> #[trigger] path[i] != '\\' && path[i] != ':',
    decreases path.len(),
{
    if path.len() > 0 && path.last() == '/' {
        lemma_plain_path_with_slashes(path.drop_last());
        assert forall|i: int| 0 <= i < path.len() implies #[trigger] path[i] != '\\' && path[i]
            != ':' by {
            if i < path.len() - 1 {
                assert(path.drop_last()[i] == path[i]);
            }
        }
    }
}

} // verus!
