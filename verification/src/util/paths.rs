//! Paths by their components, as `std::path::Path` sees them where `/` separates.

use crate::util::text::str_equal;
use vstd::prelude::*;

verus! {

/// The pieces of a text between separators: one more than there are separators.
pub open spec fn pieces(s: Seq<char>) -> Seq<Seq<char>>
    decreases s.len(),
{
    if s.len() == 0 {
        seq![Seq::empty()]
    } else {
        let front = pieces(s.drop_last());
        if s.last() == '/' {
            front.push(Seq::empty())
        } else {
            front.drop_last().push(front.last().push(s.last()))
        }
    }
}

/// Whether a piece is a component wherever it stands: pieces between repeated separators
/// and `.` are none.
pub open spec fn counts(piece: Seq<char>) -> bool {
    piece.len() > 0 && piece != "."@
}

/// The components of a path: `/` where it begins with a separator, `.` where that is its
/// first piece, and every piece that counts.
pub open spec fn components(path: Seq<char>) -> Seq<Seq<char>> {
    let top = if path.len() > 0 && path[0] == '/' {
        seq!["/"@]
    } else {
        Seq::empty()
    };
    let here = if pieces(path)[0] == "."@ {
        seq!["."@]
    } else {
        Seq::empty()
    };
    top + here + pieces(path).filter(|p: Seq<char>| counts(p))
}

/// Whether `root` is a prefix of `path` in whole components.
pub open spec fn under(path: Seq<char>, root: Seq<char>) -> bool {
    components(root).is_prefix_of(components(path))
}

/// What components lead to: `.` leads nowhere, and `..` back to where the component before it
/// began, or nowhere from the topmost directory.
pub open spec fn resolved(c: Seq<Seq<char>>) -> Seq<Seq<char>>
    decreases c.len(),
{
    if c.len() == 0 {
        Seq::empty()
    } else {
        let before = resolved(c.drop_last());
        if c.last() == "."@ {
            before
        } else if c.last() != ".."@ || before.len() == 0 || before.last() == ".."@ {
            before.push(c.last())
        } else if before.last() == "/"@ {
            before
        } else {
            before.drop_last()
        }
    }
}

/// Whether a path has `root` as a prefix and what it leads to still has: it does not lead out
/// again.
pub open spec fn stays_under(path: Seq<char>, root: Seq<char>) -> bool {
    under(path, root) && resolved(components(root)).is_prefix_of(resolved(components(path)))
}

/// `Path::starts_with`: whether the components of `root` are the first ones of `path`.
#[verifier::external_body]
fn path_starts_with(path: &str, root: &str) -> (r: bool)
    ensures
        r == under(path@, root@),
{
    std::path::Path::new(path).starts_with(root)
}

/// Texts by their characters.
pub open spec fn names(v: Seq<String>) -> Seq<Seq<char>> {
    v.map_values(|s: String| s@)
}

proof fn lemma_pieces_len(s: Seq<char>)
    ensures
        pieces(s).len() >= 1,
    decreases s.len(),
{
    if s.len() > 0 {
        lemma_pieces_len(s.drop_last());
    }
}

proof fn lemma_filter_push(ps: Seq<Seq<char>>, p: Seq<char>)
    ensures
        ps.push(p).filter(|x: Seq<char>| counts(x)) == (if counts(p) {
            ps.filter(|x: Seq<char>| counts(x)).push(p)
        } else {
            ps.filter(|x: Seq<char>| counts(x))
        }),
{
    reveal(Seq::filter);
    assert(ps.push(p).drop_last() =~= ps);
}

/// The components of pieces behind those of `top`.
spec fn listed(top: Seq<Seq<char>>, done: Seq<Seq<char>>) -> Seq<Seq<char>> {
    top + (if done.len() > 0 && done[0] == "."@ {
        seq!["."@]
    } else {
        Seq::empty()
    }) + done.filter(|p: Seq<char>| counts(p))
}

/// Adds a piece where it is a component; `first` says whether it is the first piece.
fn push_piece(r: &mut Vec<String>, piece: &str, first: bool)
    ensures
        names(final(r)@) == (if counts(piece@) || (first && piece@ == "."@) {
            names(old(r)@).push(piece@)
        } else {
            names(old(r)@)
        }),
{
    proof {
        reveal_strlit(".");
    }
    if piece.unicode_len() > 0 && (first || !str_equal(piece, ".")) {
        r.push(piece.to_owned());
        assert(names(r@) =~= names(old(r)@).push(piece@));
    }
}

proof fn lemma_listed_push(top: Seq<Seq<char>>, done: Seq<Seq<char>>, p: Seq<char>)
    ensures
        listed(top, done.push(p)) == (if counts(p) || (done.len() == 0 && p == "."@) {
            listed(top, done).push(p)
        } else {
            listed(top, done)
        }),
{
    reveal_strlit(".");
    lemma_filter_push(done, p);
    if done.len() == 0 {
        reveal(Seq::filter);
        assert(done.push(p)[0] == p);
    } else {
        assert(done.push(p)[0] == done[0]);
    }
    assert(listed(top, done.push(p)) =~= (if counts(p) || (done.len() == 0 && p == "."@) {
        listed(top, done).push(p)
    } else {
        listed(top, done)
    }));
}

/// The components of a path.
fn components_of(path: &str) -> (r: Vec<String>)
    ensures
        names(r@) == components(path@),
{
    let n: usize = path.unicode_len();
    let mut r: Vec<String> = Vec::new();
    if n > 0 && path.get_char(0) == '/' {
        r.push("/".to_owned());
    }
    let ghost top = names(r@);
    let ghost mut done: Seq<Seq<char>> = Seq::empty();
    let mut first: bool = true;
    let mut start: usize = 0;
    let mut i: usize = 0;
    proof {
        reveal(Seq::filter);
        assert(top =~= if path@.len() > 0 && path@[0] == '/' {
            seq!["/"@]
        } else {
            Seq::empty()
        });
        assert(path@.take(0) =~= Seq::<char>::empty());
        assert(path@.subrange(0, 0) =~= Seq::<char>::empty());
        assert(done.push(path@.subrange(0, 0)) =~= pieces(path@.take(0)));
        assert(listed(top, done) =~= top);
    }
    while i < n
        invariant
            n == path@.len(),
            start <= i <= n,
            pieces(path@.take(i as int)) == done.push(path@.subrange(start as int, i as int)),
            first == (done.len() == 0),
            names(r@) == listed(top, done),
        decreases n - i,
    {
        let ghost piece = path@.subrange(start as int, i as int);
        proof {
            assert(path@.take(i + 1).drop_last() =~= path@.take(i as int));
            assert(path@.take(i + 1).last() == path@[i as int]);
            assert(done.push(piece).drop_last() =~= done);
        }
        if path.get_char(i) == '/' {
            push_piece(&mut r, path.substring_char(start, i), first);
            proof {
                lemma_listed_push(top, done, piece);
                done = done.push(piece);
                assert(path@.subrange(i + 1, i + 1) =~= Seq::<char>::empty());
            }
            start = i + 1;
            first = false;
        } else {
            assert(path@.subrange(start as int, i + 1) =~= piece.push(path@[i as int]));
        }
        i += 1;
    }
    push_piece(&mut r, path.substring_char(start, n), first);
    proof {
        let piece = path@.subrange(start as int, n as int);
        lemma_listed_push(top, done, piece);
        assert(path@.take(n as int) =~= path@);
        assert(names(r@) =~= listed(top, pieces(path@)));
    }
    r
}

/// What components lead to.
fn resolve(c: &Vec<String>) -> (r: Vec<String>)
    ensures
        names(r@) == resolved(names(c@)),
{
    let ghost all = names(c@);
    let n: usize = c.len();
    let mut r: Vec<String> = Vec::new();
    let mut i: usize = 0;
    assert(all.take(0) =~= Seq::<Seq<char>>::empty());
    assert(names(r@) =~= resolved(all.take(0)));
    while i < n
        invariant
            n == c@.len(),
            i <= n,
            all == names(c@),
            names(r@) == resolved(all.take(i as int)),
        decreases n - i,
    {
        let name = c[i].as_str();
        let ghost before = names(r@);
        let m: usize = r.len();
        proof {
            assert(all.take(i + 1).drop_last() =~= all.take(i as int));
            assert(all.take(i + 1).last() == name@);
            assert(before.len() == m);
            if m > 0 {
                assert(before.last() == r@[m - 1]@);
            }
        }
        if str_equal(name, ".") {
        } else if !str_equal(name, "..") || m == 0 || str_equal(r[m - 1].as_str(), "..") {
            r.push(name.to_owned());
            assert(names(r@) =~= before.push(name@));
        } else if !str_equal(r[m - 1].as_str(), "/") {
            r.pop();
            assert(names(r@) =~= before.drop_last());
        }
        i += 1;
    }
    assert(all.take(i as int) =~= all);
    r
}

/// Whether texts begin with other texts.
fn begins_with(all: &Vec<String>, front: &Vec<String>) -> (r: bool)
    ensures
        r == names(front@).is_prefix_of(names(all@)),
{
    let n: usize = front.len();
    assert(names(front@).len() == n && names(all@).len() == all@.len());
    if n > all.len() {
        return false;
    }
    let mut i: usize = 0;
    while i < n
        invariant
            n == front@.len(),
            n <= all@.len(),
            i <= n,
            forall|j: int| 0 <= j < i ==> names(front@)[j] == #[trigger] names(all@)[j],
        decreases n - i,
    {
        assert(names(front@)[i as int] == front@[i as int]@);
        assert(names(all@)[i as int] == all@[i as int]@);
        if !str_equal(front[i].as_str(), all[i].as_str()) {
            assert(names(all@).subrange(0, n as int)[i as int] == names(all@)[i as int]);
            return false;
        }
        i += 1;
    }
    assert(names(front@) =~= names(all@).subrange(0, n as int));
    true
}

/// Whether a path has `root` as a prefix and does not lead out of it again.
pub fn is_under(path: &str, root: &str) -> (r: bool)
    ensures
        r == stays_under(path@, root@),
{
    path_starts_with(path, root) && begins_with(
        &resolve(&components_of(path)),
        &resolve(&components_of(root)),
    )
}

proof fn lemma_pieces_join(a: Seq<char>, b: Seq<char>)
    ensures
        pieces(a + seq!['/'] + b) == pieces(a) + pieces(b),
    decreases b.len(),
{
    let whole = a + seq!['/'] + b;
    lemma_pieces_len(a);
    if b.len() == 0 {
        assert(whole.drop_last() =~= a);
        assert(pieces(a) + pieces(b) =~= pieces(a).push(Seq::empty()));
    } else {
        let rest = b.drop_last();
        lemma_pieces_join(a, rest);
        lemma_pieces_len(rest);
        assert(whole.drop_last() =~= a + seq!['/'] + rest);
        assert(whole.last() == b.last());
        let front = pieces(a) + pieces(rest);
        if b.last() == '/' {
            assert(front.push(Seq::empty()) =~= pieces(a) + pieces(b));
        } else {
            assert(front.last() == pieces(rest).last());
            assert(front.drop_last() =~= pieces(a) + pieces(rest).drop_last());
            assert(pieces(whole) =~= pieces(a) + pieces(b));
        }
    }
}

/// Whether a text goes on behind another one at a separator.
pub open spec fn goes_on(path: Seq<char>, root: Seq<char>) -> bool {
    &&& root.len() < path.len()
    &&& path.take(root.len() as int) == root
    &&& path[root.len() as int] == '/' || (root.len() > 0 && root.last() == '/')
}

/// What follows a text and a separator.
pub open spec fn rest_of(path: Seq<char>, root: Seq<char>) -> Seq<char> {
    if root.len() > 0 && root.last() == '/' {
        path.skip(root.len() as int)
    } else {
        path.skip(root.len() as int + 1)
    }
}

/// A path that goes on behind a root at a separator has the root's components in front, and
/// then those pieces of the rest that count.
pub proof fn law_goes_on_under(path: Seq<char>, root: Seq<char>)
    requires
        root.len() > 0,
        goes_on(path, root),
    ensures
        components(path) == components(root) + pieces(rest_of(path, root)).filter(
            |p: Seq<char>| counts(p),
        ),
        under(path, root),
{
    let rest = rest_of(path, root);
    let stem = if root.last() == '/' {
        root.drop_last()
    } else {
        root
    };
    let f = |p: Seq<char>| counts(p);
    assert(path =~= stem + seq!['/'] + rest);
    lemma_pieces_join(stem, rest);
    lemma_pieces_len(stem);
    Seq::filter_distributes_over_add(pieces(stem), pieces(rest), f);
    assert(path[0] == root[0]);
    if root.last() == '/' {
        assert(root =~= stem + seq!['/'] + Seq::<char>::empty());
        lemma_pieces_join(stem, Seq::empty());
        assert(pieces(Seq::<char>::empty()) =~= seq![Seq::<char>::empty()]);
        assert(pieces(root) =~= pieces(stem).push(Seq::empty()));
        lemma_filter_push(pieces(stem), Seq::empty());
    }
    assert(pieces(path)[0] == pieces(root)[0]);
    assert(components(path) =~= components(root) + pieces(rest).filter(f));
    assert(components(root).is_prefix_of(components(path)));
}

/// A name without separators is one piece.
pub proof fn lemma_one_piece(s: Seq<char>)
    requires
        !s.contains('/'),
    ensures
        pieces(s) == seq![s],
    decreases s.len(),
{
    if s.len() == 0 {
        assert(s =~= Seq::<char>::empty());
    } else {
        let front = s.drop_last();
        assert(s[s.len() - 1] == s.last());
        assert(!front.contains('/')) by {
            if front.contains('/') {
                let i = front.index_of('/');
                assert(s[i] == '/');
            }
        }
        lemma_one_piece(front);
        assert(front.push(s.last()) =~= s);
        assert(pieces(s) =~= seq![s]);
    }
}

/// A name directly in a directory lies under it.
pub proof fn law_entry_stays_under(path: Seq<char>, root: Seq<char>)
    requires
        root.len() > 0,
        goes_on(path, root),
        !rest_of(path, root).contains('/'),
        counts(rest_of(path, root)),
        rest_of(path, root) != ".."@,
    ensures
        stays_under(path, root),
{
    let name = rest_of(path, root);
    law_goes_on_under(path, root);
    lemma_one_piece(name);
    lemma_filter_push(Seq::empty(), name);
    reveal(Seq::filter);
    assert(Seq::<Seq<char>>::empty().push(name) =~= seq![name]);
    assert(components(path) =~= components(root).push(name));
    assert(components(path).drop_last() =~= components(root));
    let r = resolved(components(root));
    assert(resolved(components(path)) == r.push(name));
    assert(r =~= r.push(name).subrange(0, r.len() as int));
}

/// How far a component goes down.
pub open spec fn down(component: Seq<char>) -> int {
    if component == ".."@ {
        -1
    } else if component == "."@ {
        0
    } else {
        1
    }
}

/// How far components go down together.
pub open spec fn depth(c: Seq<Seq<char>>) -> int
    decreases c.len(),
{
    if c.len() == 0 {
        0
    } else {
        depth(c.drop_last()) + down(c.last())
    }
}

/// Components behind a root that nowhere go further up than down do not lead out of it.
pub proof fn law_no_way_up_stays(root: Seq<Seq<char>>, c: Seq<Seq<char>>)
    requires
        forall|k: int| 0 <= k <= c.len() ==> #[trigger] depth(c.take(k)) >= 0,
        !c.contains("/"@),
    ensures
        resolved(root).is_prefix_of(resolved(root + c)),
        resolved(root + c).len() == resolved(root).len() + depth(c),
        forall|j: int|
            resolved(root).len() <= j < resolved(root + c).len() ==> #[trigger] resolved(root + c)[j]
                != ".."@ && resolved(root + c)[j] != "/"@,
    decreases c.len(),
{
    let top = resolved(root);
    if c.len() == 0 {
        assert(root + c =~= root);
        assert(top =~= top.subrange(0, top.len() as int));
    } else {
        let rest = c.drop_last();
        assert forall|k: int| 0 <= k <= rest.len() implies #[trigger] depth(rest.take(k)) >= 0 by {
            assert(rest.take(k) =~= c.take(k));
        }
        assert(c[c.len() - 1] == c.last());
        assert(!rest.contains("/"@)) by {
            if rest.contains("/"@) {
                let i = rest.index_of("/"@);
                assert(c[i] == "/"@);
            }
        }
        law_no_way_up_stays(root, rest);
        assert((root + c).drop_last() =~= root + rest);
        assert((root + c).last() == c.last());
        assert(c.take(c.len() as int) =~= c);
        assert(depth(c.take(c.len() as int)) >= 0);
        let before = resolved(root + rest);
        let after = resolved(root + c);
        if c.last() == ".."@ {
            reveal_strlit(".");
            reveal_strlit("..");
            assert(before.len() > top.len());
            assert(after == before.drop_last());
        }
        assert(top =~= after.subrange(0, top.len() as int)) by {
            assert(top =~= before.subrange(0, top.len() as int));
        }
    }
}

proof fn lemma_resolved_names(front: Seq<Seq<char>>, names: Seq<Seq<char>>)
    requires
        forall|i: int| 0 <= i < names.len() ==> #[trigger] names[i] != "."@ && names[i] != ".."@,
    ensures
        resolved(front + names) == resolved(front) + names,
    decreases names.len(),
{
    if names.len() == 0 {
        assert(front + names =~= front);
        assert(resolved(front) + names =~= resolved(front));
    } else {
        let rest = names.drop_last();
        assert forall|i: int| 0 <= i < rest.len() implies #[trigger] rest[i] != "."@ && rest[i]
            != ".."@ by {
            assert(rest[i] == names[i]);
        }
        lemma_resolved_names(front, rest);
        assert(names[names.len() - 1] == names.last());
        assert((front + names).drop_last() =~= front + rest);
        assert((front + names).last() == names.last());
        assert(resolved(front) + names =~= (resolved(front) + rest).push(names.last()));
    }
}

/// A path that goes up from the root and does not come back into it leads out of it.
pub proof fn law_way_up_leads_out(root: Seq<Seq<char>>, names: Seq<Seq<char>>)
    requires
        root.len() > 0,
        resolved(root) == root,
        root.last() != ".."@,
        root.last() != "/"@,
        forall|i: int| 0 <= i < names.len() ==> #[trigger] names[i] != "."@ && names[i] != ".."@,
        names.len() > 0 ==> names[0] != root.last(),
    ensures
        !resolved(root).is_prefix_of(resolved(root.push(".."@) + names)),
{
    reveal_strlit(".");
    reveal_strlit("..");
    let up = root.push(".."@);
    assert(up.drop_last() =~= root);
    assert("."@.len() != ".."@.len());
    assert(resolved(up) == root.drop_last());
    lemma_resolved_names(up, names);
    let to = root.drop_last() + names;
    let n = root.len() - 1;
    if root.is_prefix_of(to) {
        assert(to.subrange(0, root.len() as int)[n] == to[n]);
        assert(to[n] == names[0]);
    }
}

} // verus!
