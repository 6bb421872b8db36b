//! Paths as the backends print them: '/'-separated text, compared component by
//! component, where empty and "." components do not count.
use vstd::prelude::*;
use vstd::string::*;

use crate::text::same_text;
use crate::text::split_char;
use crate::text::split_on;
use crate::text::views;

verus! {

/// The path starts at the root.
pub open spec fn is_absolute(p: Seq<char>) -> bool {
    p.len() > 0 && p[0] == '/'
}

/// A component that names something: neither empty nor ".".
pub open spec fn is_named(x: Seq<char>) -> bool {
    x.len() > 0 && x != "."@
}

/// The component that stands for the root.
pub open spec fn root_component() -> Seq<char> {
    seq!['/']
}

/// The components of `p`: the root first if `p` is absolute, then each named
/// piece between separators.
pub open spec fn components(p: Seq<char>) -> Seq<Seq<char>> {
    let named = split_on(p, '/').filter(|x: Seq<char>| is_named(x));
    if is_absolute(p) {
        seq![root_component()] + named
    } else {
        named
    }
}

/// The components of `p`.
pub fn path_components(p: &str) -> (r: Vec<String>)
    ensures
        views(r@) == components(p@),
{
    let pieces = split_char(p, '/');
    let ghost all = views(pieces@);
    let mut out: Vec<String> = Vec::new();
    let absolute = p.unicode_len() > 0 && p.get_char(0) == '/';
    if absolute {
        let root = String::from_str("/");
        proof {
            reveal_strlit("/");
        }
        assert(root@ =~= root_component());
        out.push(root);
    }
    let ghost head = views(out@);
    let mut i: usize = 0;
    while i < pieces.len()
        invariant
            i <= pieces.len(),
            all == views(pieces@),
            views(out@) == head + all.subrange(0, i as int).filter(|x: Seq<char>| is_named(x)),
        decreases pieces.len() - i,
    {
        proof {
            let w = all.subrange(0, i + 1);
            assert(w.drop_last() =~= all.subrange(0, i as int));
            reveal(Seq::filter);
            assert(w.last() == pieces@[i as int]@);
        }
        if pieces[i].unicode_len() > 0 && !same_text(pieces[i].as_str(), ".") {
            let item = pieces[i].clone();
            proof {
                assert(views(out@.push(item)) =~= views(out@).push(item@));
                assert(head + all.subrange(0, i + 1).filter(|x: Seq<char>| is_named(x)) =~= (head
                    + all.subrange(0, i as int).filter(|x: Seq<char>| is_named(x))).push(item@));
            }
            out.push(item);
        } else {
            assert(head + all.subrange(0, i + 1).filter(|x: Seq<char>| is_named(x)) =~= head
                + all.subrange(0, i as int).filter(|x: Seq<char>| is_named(x)));
        }
        i = i + 1;
    }
    assert(all.subrange(0, pieces.len() as int) =~= all);
    assert(components(p@) =~= head + all.filter(|x: Seq<char>| is_named(x)));
    out
}

/// `parts` written one after the other with '/' between them.
pub open spec fn joined(parts: Seq<Seq<char>>) -> Seq<char>
    decreases parts.len(),
{
    if parts.len() == 0 {
        Seq::empty()
    } else if parts.len() == 1 {
        parts[0]
    } else {
        joined(parts.drop_last()) + seq!['/'] + parts.last()
    }
}

/// `parts[from..]` joined with '/'.
pub fn join_from(parts: &Vec<String>, from: usize) -> (r: String)
    requires
        from <= parts.len(),
    ensures
        r@ == joined(views(parts@).subrange(from as int, parts.len() as int)),
{
    let ghost all = views(parts@);
    let mut out = String::new();
    let mut i: usize = from;
    proof {
        reveal_strlit("/");
        assert(all.subrange(from as int, from as int) =~= Seq::<Seq<char>>::empty());
    }
    while i < parts.len()
        invariant
            from <= i <= parts.len(),
            all == views(parts@),
            out@ == joined(all.subrange(from as int, i as int)),
        decreases parts.len() - i,
    {
        let ghost w = all.subrange(from as int, i + 1);
        assert(w.drop_last() =~= all.subrange(from as int, i as int));
        assert(w.last() == parts@[i as int]@);
        if i > from {
            out.append("/");
        }
        out.append(parts[i].as_str());
        proof {
            if i > from {
                reveal_strlit("/");
                assert("/"@ =~= seq!['/']);
                assert(out@ =~= joined(w));
            } else {
                assert(w =~= seq![parts@[i as int]@]);
                assert(out@ =~= joined(w));
            }
        }
        i = i + 1;
    }
    out
}

/// `b` is a prefix of `a`.
pub open spec fn is_prefix_of(b: Seq<Seq<char>>, a: Seq<Seq<char>>) -> bool {
    b.len() <= a.len() && a.subrange(0, b.len() as int) == b
}

pub fn starts_with_parts(a: &Vec<String>, b: &Vec<String>) -> (r: bool)
    ensures
        r == is_prefix_of(views(b@), views(a@)),
{
    if b.len() > a.len() {
        return false;
    }
    let mut i: usize = 0;
    while i < b.len()
        invariant
            i <= b.len() <= a.len(),
            forall|k: int| 0 <= k < i ==> a@[k]@ == b@[k]@,
        decreases b.len() - i,
    {
        if !same_text(a[i].as_str(), b[i].as_str()) {
            assert(views(a@).subrange(0, b.len() as int)[i as int] != views(b@)[i as int]);
            return false;
        }
        i = i + 1;
    }
    assert(views(a@).subrange(0, b.len() as int) =~= views(b@));
    true
}

/// `path` starts with `base`, component by component.
pub open spec fn path_starts_with(path: Seq<char>, base: Seq<char>) -> bool {
    is_prefix_of(components(base), components(path))
}

/// The components of `path` after those of `base`, when `path` starts with
/// `base`.
pub open spec fn rest_after(path: Seq<char>, base: Seq<char>) -> Option<Seq<Seq<char>>> {
    if path_starts_with(path, base) {
        Some(components(path).subrange(components(base).len() as int, components(path).len() as int))
    } else {
        None
    }
}

/// The two paths have the same components.
pub fn same_path(a: &str, b: &str) -> (r: bool)
    ensures
        r == (components(a@) == components(b@)),
{
    let ca = path_components(a);
    let cb = path_components(b);
    let r = ca.len() == cb.len() && starts_with_parts(&ca, &cb);
    proof {
        if components(a@) == components(b@) {
            assert(views(ca@).subrange(0, views(cb@).len() as int) =~= views(ca@));
        }
        if r {
            assert(views(ca@).subrange(0, views(cb@).len() as int) =~= views(ca@));
        }
    }
    r
}

/// `path` lies at or below `scope`; every path does when there is no scope.
pub open spec fn in_scope(path: Seq<char>, scope: Option<Seq<char>>) -> bool {
    match scope {
        None => true,
        Some(s) => path_starts_with(path, s),
    }
}

/// Whether `path` lies at or below `scope`.
pub fn within_scope(path: &str, scope: Option<&str>) -> (r: bool)
    ensures
        r == in_scope(
            path@,
            match scope {
                Some(s) => Some(s@),
                None => None,
            },
        ),
{
    match scope {
        None => true,
        Some(s) => {
            let pc = path_components(path);
            let sc = path_components(s);
            starts_with_parts(&pc, &sc)
        },
    }
}

/// `None` for the empty path, which stands for the whole repository.
pub open spec fn non_empty_of(p: Seq<char>) -> Option<Seq<char>> {
    if p.len() == 0 {
        None
    } else {
        Some(p)
    }
}

pub fn non_empty_path(path: &str) -> (r: Option<String>)
    ensures
        r matches Some(s) ==> non_empty_of(path@) == Some(s@),
        r is None ==> non_empty_of(path@) is None,
{
    if path.unicode_len() == 0 {
        None
    } else {
        Some(String::from_str(path))
    }
}

/// The text of the path with components `c`.
pub open spec fn path_of(c: Seq<Seq<char>>) -> Seq<char> {
    if c.len() > 0 && c[0] == root_component() {
        seq!['/'] + joined(c.drop_first())
    } else {
        joined(c)
    }
}

/// The parent of `p`: `p` without its last component; none for the root or
/// an empty path.
pub open spec fn parent_of(p: Seq<char>) -> Option<Seq<char>> {
    let c = components(p);
    if c.len() == 0 || (c.len() == 1 && c[0] == root_component()) {
        None
    } else {
        Some(path_of(c.drop_last()))
    }
}

pub fn parent_path(p: &str) -> (r: Option<String>)
    ensures
        r matches Some(s) ==> parent_of(p@) == Some(s@),
        r is None ==> parent_of(p@) is None,
{
    let c = path_components(p);
    let n = c.len();
    if n == 0 {
        return None;
    }
    let rooted = same_text(c[0].as_str(), "/");
    proof {
        reveal_strlit("/");
        assert("/"@ =~= root_component());
    }
    if n == 1 && rooted {
        return None;
    }
    let mut parts = c;
    parts.pop();
    proof {
        assert(views(parts@) =~= components(p@).drop_last());
    }
    if rooted {
        let mut s = String::from_str("/");
        let rest = join_from(&parts, 1);
        s.append(rest.as_str());
        proof {
            assert(views(parts@).subrange(1, parts.len() as int) =~= views(parts@).drop_first());
            assert(views(parts@)[0] == root_component());
        }
        Some(s)
    } else {
        let r = join_from(&parts, 0);
        assert(views(parts@).subrange(0, parts.len() as int) =~= views(parts@));
        Some(r)
    }
}

/// `rel` appended to `base` as `Path::join` does: an absolute `rel` replaces
/// `base`.
pub open spec fn join_of(base: Seq<char>, rel: Seq<char>) -> Seq<char> {
    if is_absolute(rel) || base.len() == 0 {
        rel
    } else if base.last() == '/' {
        base + rel
    } else {
        base + seq!['/'] + rel
    }
}

pub fn join_path(base: &str, rel: &str) -> (r: String)
    ensures
        r@ == join_of(base@, rel@),
{
    let n = base.unicode_len();
    if (rel.unicode_len() > 0 && rel.get_char(0) == '/') || n == 0 {
        return String::from_str(rel);
    }
    let mut s = String::from_str(base);
    if base.get_char(n - 1) != '/' {
        s.append("/");
        proof {
            reveal_strlit("/");
            assert("/"@ =~= seq!['/']);
        }
    }
    s.append(rel);
    s
}

/// `base` and the directories above it, nearest first, as taking the parent
/// up to `fuel` times gives them.
pub open spec fn ancestors_of(base: Seq<char>, fuel: nat) -> Seq<Seq<char>>
    decreases fuel,
{
    if fuel == 0 {
        seq![base]
    } else {
        match parent_of(base) {
            Some(p) => seq![base] + ancestors_of(p, (fuel - 1) as nat),
            None => seq![base],
        }
    }
}

/// `base` and the directories above it, nearest first: one for each of its
/// components, since each parent has one component fewer.
pub fn ancestors(base: &str) -> (r: Vec<String>)
    ensures
        views(r@) == ancestors_of(base@, components(base@).len()),
{
    let fuel = path_components(base).len();
    let mut out: Vec<String> = Vec::new();
    let mut current = String::from_str(base);
    let mut k: usize = 0;
    loop
        invariant
            k <= fuel,
            fuel == components(base@).len(),
            views(out@) + ancestors_of(current@, (fuel - k) as nat) == ancestors_of(
                base@,
                fuel as nat,
            ),
        decreases fuel - k,
    {
        let parent = if k < fuel {
            parent_path(current.as_str())
        } else {
            None
        };
        match parent {
            Some(p) => {
                proof {
                    assert(ancestors_of(current@, (fuel - k) as nat) == seq![current@]
                        + ancestors_of(p@, (fuel - k - 1) as nat));
                    assert(views(out@.push(current)) =~= views(out@).push(current@));
                    assert(views(out@).push(current@) + ancestors_of(p@, (fuel - k - 1) as nat)
                        =~= views(out@) + (seq![current@] + ancestors_of(
                        p@,
                        (fuel - k - 1) as nat,
                    )));
                }
                out.push(current);
                current = p;
                k = k + 1;
            },
            None => {
                proof {
                    assert(ancestors_of(current@, (fuel - k) as nat) == seq![current@]);
                    assert(views(out@.push(current)) =~= views(out@).push(current@));
                    assert(views(out@).push(current@) =~= views(out@) + seq![current@]);
                }
                out.push(current);
                return out;
            },
        }
    }
}

} // verus!
