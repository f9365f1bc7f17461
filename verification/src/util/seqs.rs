//! Facts about sequences.

use vstd::prelude::*;

verus! {

/// Concatenation is associative.
pub proof fn lemma_assoc3<A>(a: Seq<A>, b: Seq<A>, c: Seq<A>)
    ensures
        (a + b) + c == a + (b + c),
{
    assert((a + b) + c =~= a + (b + c));
}

/// Concatenation of five sequences, regrouped to the right.
pub proof fn lemma_assoc5<A>(a: Seq<A>, b: Seq<A>, c: Seq<A>, d: Seq<A>, e: Seq<A>)
    ensures
        (a + b + c + d) + e == a + (b + (c + (d + e))),
{
    lemma_assoc3(a + b + c, d, e);
    lemma_assoc3(a + b, c, d + e);
    lemma_assoc3(a, b, c + (d + e));
}

/// Where the parts of a concatenation are.
pub proof fn lemma_five_parts<A>(a: Seq<A>, b: Seq<A>, c: Seq<A>, d: Seq<A>, e: Seq<A>)
    ensures
        ({
            let s = (a + b + c + d) + e;
            let (i, j, k) = (
                a.len() as int,
                a.len() + b.len() as int,
                a.len() + b.len() + c.len() as int,
            );
            &&& s == a + (b + (c + (d + e)))
            &&& s.len() == k + d.len() + e.len()
            &&& s.subrange(i, j) == b
            &&& s.skip(j) == c + (d + e)
            &&& s.subrange(k, k + d.len()) == d
        }),
{
    let s = (a + b + c + d) + e;
    let j = a.len() + b.len() as int;
    let k = j + c.len();
    lemma_assoc5(a, b, c, d, e);
    assert(s.subrange(a.len() as int, j) =~= b);
    assert(s.skip(j) =~= c + (d + e));
    assert(s.subrange(k, k + d.len()) =~= d);
}

/// Whether `part` stands in `s` at position `pos`.
pub open spec fn stands_at<A>(s: Seq<A>, pos: nat, part: Seq<A>) -> bool {
    &&& pos + part.len() <= s.len()
    &&& s.subrange(pos as int, (pos + part.len()) as int) == part
}

/// A concatenation stands somewhere exactly when its parts stand there one after the other.
pub proof fn lemma_stands_split<A>(s: Seq<A>, pos: nat, a: Seq<A>, b: Seq<A>)
    requires
        stands_at(s, pos, a + b),
    ensures
        stands_at(s, pos, a),
        stands_at(s, pos + a.len(), b),
{
    let t = s.subrange(pos as int, (pos + (a + b).len()) as int);
    assert(t.len() == a.len() + b.len());
    assert(s.subrange(pos as int, (pos + a.len()) as int) =~= a) by {
        assert forall|i: int| 0 <= i < a.len() implies s[pos + i] == a[i] by {
            assert(t[i] == (a + b)[i]);
        }
    }
    assert(s.subrange((pos + a.len()) as int, (pos + a.len() + b.len()) as int) =~= b) by {
        assert forall|i: int| 0 <= i < b.len() implies s[pos + a.len() + i] == b[i] by {
            assert(t[a.len() + i] == (a + b)[a.len() + i]);
        }
    }
}

/// The front of a concatenation stands at its beginning.
pub proof fn lemma_stands_front<A>(a: Seq<A>, b: Seq<A>)
    ensures
        stands_at(a + b, 0, a),
{
    assert((a + b).subrange(0, a.len() as int) =~= a);
}

/// What stands at a position begins the rest of the sequence from there.
pub proof fn lemma_stands_skip<A>(s: Seq<A>, pos: nat, part: Seq<A>)
    requires
        stands_at(s, pos, part),
    ensures
        s.skip(pos as int) == part + s.skip((pos + part.len()) as int),
{
    assert(s.skip(pos as int) =~= part + s.skip((pos + part.len()) as int)) by {
        assert forall|i: int| 0 <= i < part.len() implies s[pos + i] == part[i] by {
            assert(s.subrange(pos as int, (pos + part.len()) as int)[i] == part[i]);
        }
    }
}

/// Parts that stand one behind the other stand there as one.
pub proof fn lemma_stands_join<A>(s: Seq<A>, pos: nat, a: Seq<A>, b: Seq<A>)
    requires
        stands_at(s, pos, a),
        stands_at(s, pos + a.len(), b),
    ensures
        stands_at(s, pos, a + b),
{
    let t = s.subrange(pos as int, (pos + (a + b).len()) as int);
    assert(t =~= a + b) by {
        assert forall|i: int| 0 <= i < t.len() implies t[i] == (a + b)[i] by {
            if i < a.len() {
                assert(s.subrange(pos as int, (pos + a.len()) as int)[i] == a[i]);
            } else {
                assert(s.subrange(
                    (pos + a.len()) as int,
                    (pos + a.len() + b.len()) as int,
                )[i - a.len()] == b[i - a.len()]);
            }
        }
    }
}

/// Where the parts of a concatenation of four stand.
pub proof fn lemma_stands_four<A>(a: Seq<A>, b: Seq<A>, c: Seq<A>, d: Seq<A>)
    ensures
        stands_at(a + b + c + d, 0, a),
        stands_at(a + b + c + d, a.len(), b),
        stands_at(a + b + c + d, a.len() + b.len(), c),
        stands_at(a + b + c + d, a.len() + b.len() + c.len(), d),
        (a + b + c + d).len() == a.len() + b.len() + c.len() + d.len(),
{
    let w = a + b + c + d;
    assert(w.subrange(0, w.len() as int) =~= w);
    lemma_stands_split(w, 0, a + b + c, d);
    lemma_stands_split(w, 0, a + b, c);
    lemma_stands_split(w, 0, a, b);
}

/// The elements of what stands somewhere.
pub proof fn lemma_stands_element<A>(s: Seq<A>, pos: nat, part: Seq<A>, i: int)
    requires
        stands_at(s, pos, part),
        0 <= i < part.len(),
    ensures
        s[pos + i] == part[i],
{
    assert(s.subrange(pos as int, (pos + part.len()) as int)[i] == part[i]);
}

} // verus!
