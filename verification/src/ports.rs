//! Deterministic ordering of enumerated port names.  The underlying
//! OS enumeration order is not stable across calls or platforms, so
//! the names are sorted lexicographically by code point; two
//! enumerations that see the same ports therefore yield identical,
//! identically ordered lists.

use vstd::prelude::*;
use vstd::relations::sorted_by;
use vstd::relations::total_ordering;
use vstd::seq_lib::lemma_sorted_unique;
use vstd::string::StrSliceExecFns;

verus! {

/// Lexicographic order on character sequences, by code point: the
/// empty sequence first, then by the first differing character.
pub open spec fn lex_le(a: Seq<char>, b: Seq<char>) -> bool
    decreases a.len(),
{
    if a.len() == 0 {
        true
    } else if b.len() == 0 {
        false
    } else if (a[0] as u32) < (b[0] as u32) {
        true
    } else if (a[0] as u32) > (b[0] as u32) {
        false
    } else {
        lex_le(a.drop_first(), b.drop_first())
    }
}

/// The order `lex_le`, as a relation value for `sorted_by`.
pub open spec fn lex_le_fn() -> spec_fn(Seq<char>, Seq<char>) -> bool {
    |a: Seq<char>, b: Seq<char>| lex_le(a, b)
}

/// The views of a sequence of names.
pub open spec fn views_of(s: Seq<String>) -> Seq<Seq<char>> {
    s.map_values(|x: String| x@)
}

pub proof fn lemma_lex_le_reflexive(a: Seq<char>)
    ensures
        lex_le(a, a),
    decreases a.len(),
{
    if a.len() > 0 {
        lemma_lex_le_reflexive(a.drop_first());
    }
}

pub proof fn lemma_lex_le_connected(a: Seq<char>, b: Seq<char>)
    ensures
        lex_le(a, b) || lex_le(b, a),
    decreases a.len(),
{
    if a.len() > 0 && b.len() > 0 && (a[0] as u32) == (b[0] as u32) {
        lemma_lex_le_connected(a.drop_first(), b.drop_first());
    }
}

pub proof fn lemma_lex_le_antisymmetric(a: Seq<char>, b: Seq<char>)
    requires
        lex_le(a, b),
        lex_le(b, a),
    ensures
        a == b,
    decreases a.len(),
{
    if a.len() == 0 {
        assert(b.len() == 0);
        assert(a =~= b);
    } else {
        assert(b.len() > 0);
        assert((a[0] as u32) == (b[0] as u32));
        vstd::utf8::char_u32_cast(a[0], a[0] as u32);
        vstd::utf8::char_u32_cast(b[0], a[0] as u32);
        assert(a[0] == b[0]);
        lemma_lex_le_antisymmetric(a.drop_first(), b.drop_first());
        assert forall|i: int| 0 <= i < a.len() implies a[i] == b[i] by {
            if i > 0 {
                assert(a.drop_first()[i - 1] == b.drop_first()[i - 1]);
            }
        }
        assert(a =~= b);
    }
}

pub proof fn lemma_lex_le_transitive(a: Seq<char>, b: Seq<char>, c: Seq<char>)
    requires
        lex_le(a, b),
        lex_le(b, c),
    ensures
        lex_le(a, c),
    decreases a.len(),
{
    if a.len() == 0 {
    } else {
        assert(b.len() > 0);
        assert(c.len() > 0);
        if (a[0] as u32) == (b[0] as u32) && (b[0] as u32) == (c[0] as u32) {
            lemma_lex_le_transitive(a.drop_first(), b.drop_first(), c.drop_first());
        }
    }
}

/// `lex_le` is a total order on character sequences.
pub proof fn lemma_lex_total_ordering()
    ensures
        total_ordering(lex_le_fn()),
{
    let r = lex_le_fn();
    assert forall|x: Seq<char>| #[trigger] r(x, x) by {
        lemma_lex_le_reflexive(x);
    }
    assert forall|x: Seq<char>, y: Seq<char>| #[trigger] r(x, y) && #[trigger] r(y, x)
        implies x == y by {
        lemma_lex_le_antisymmetric(x, y);
    }
    assert forall|x: Seq<char>, y: Seq<char>, z: Seq<char>|
        #[trigger] r(x, y) && #[trigger] r(y, z) implies r(x, z) by {
        lemma_lex_le_transitive(x, y, z);
    }
    assert forall|x: Seq<char>, y: Seq<char>| #[trigger] r(x, y) || #[trigger] r(y, x) by {
        lemma_lex_le_connected(x, y);
    }
}

/// Decides `lex_le` on two names by walking their characters left to
/// right until the first difference or the end of one name.
pub fn name_le(a: &String, b: &String) -> (r: bool)
    ensures
        r == lex_le(a@, b@),
{
    let alen = a.as_str().unicode_len();
    let blen = b.as_str().unicode_len();
    proof {
        assert(a@.skip(0) =~= a@);
        assert(b@.skip(0) =~= b@);
    }
    let mut i: usize = 0;
    loop
        invariant
            i <= alen,
            i <= blen,
            alen == a@.len(),
            blen == b@.len(),
            lex_le(a@, b@) == lex_le(a@.skip(i as int), b@.skip(i as int)),
        decreases alen - i,
    {
        if i >= alen {
            return true;
        }
        if i >= blen {
            return false;
        }
        let ca = a.as_str().get_char(i);
        let cb = b.as_str().get_char(i);
        if (ca as u32) < (cb as u32) {
            return true;
        }
        if (ca as u32) > (cb as u32) {
            return false;
        }
        proof {
            assert(a@.skip(i as int).drop_first() =~= a@.skip(i as int + 1));
            assert(b@.skip(i as int).drop_first() =~= b@.skip(i as int + 1));
        }
        i += 1;
    }
}

proof fn lemma_views_insert(s: Seq<String>, j: int, x: String)
    requires
        0 <= j <= s.len(),
    ensures
        views_of(s.insert(j, x)) =~= views_of(s).insert(j, x@),
{
}

proof fn lemma_views_push(s: Seq<String>, x: String)
    ensures
        views_of(s.push(x)) =~= views_of(s).push(x@),
{
}

proof fn lemma_sorted_insert(v: Seq<Seq<char>>, j: int, x: Seq<char>)
    requires
        sorted_by(v, lex_le_fn()),
        0 <= j <= v.len(),
        forall|k: int| 0 <= k < j ==> lex_le(v[k], x),
        j == v.len() || !lex_le(v[j], x),
    ensures
        sorted_by(v.insert(j, x), lex_le_fn()),
{
    let v2 = v.insert(j, x);
    assert forall|p: int, q: int| 0 <= p < q < v2.len() implies #[trigger] lex_le_fn()(
        v2[p],
        v2[q],
    ) by {
        if p < j && q == j {
            assert(lex_le(v[p], x));
        } else if p == j && q > j {
            assert(!lex_le(v[j], x));
            lemma_lex_le_connected(v[j], x);
            if q - 1 > j {
                assert(lex_le_fn()(v[j], v[q - 1]));
                lemma_lex_le_transitive(x, v[j], v[q - 1]);
            }
        } else if p < j && q > j {
            assert(lex_le_fn()(v[p], v[q - 1]));
        } else if p > j && q > j {
            assert(lex_le_fn()(v[p - 1], v[q - 1]));
        } else {
            assert(lex_le_fn()(v[p], v[q]));
        }
    }
}

/// Sorts the enumerated port names lexicographically by code point:
/// the result holds exactly the given names, in sorted order.
pub fn available_ports(names: Vec<String>) -> (r: Vec<String>)
    ensures
        sorted_by(views_of(r@), lex_le_fn()),
        views_of(r@).to_multiset() == views_of(names@).to_multiset(),
{
    broadcast use vstd::seq_lib::group_to_multiset_ensures;

    let mut out: Vec<String> = Vec::new();
    proof {
        assert(views_of(out@) =~= Seq::<Seq<char>>::empty());
        assert(views_of(names@.take(0)) =~= Seq::<Seq<char>>::empty());
    }
    let mut i: usize = 0;
    while i < names.len()
        invariant
            i <= names@.len(),
            sorted_by(views_of(out@), lex_le_fn()),
            views_of(out@).to_multiset() == views_of(names@.take(i as int)).to_multiset(),
        decreases names@.len() - i,
    {
        broadcast use vstd::seq_lib::group_to_multiset_ensures;

        let name = names[i].clone();
        let mut j: usize = 0;
        loop
            invariant
                j <= out@.len(),
                forall|k: int| 0 <= k < j ==> lex_le(out@[k]@, name@),
            ensures
                j <= out@.len(),
                forall|k: int| 0 <= k < j ==> lex_le(out@[k]@, name@),
                j == out@.len() || !lex_le(out@[j as int]@, name@),
            decreases out@.len() - j,
        {
            if j >= out.len() {
                break;
            }
            if !name_le(&out[j], &name) {
                break;
            }
            j += 1;
        }
        let ghost out0 = out@;
        proof {
            assert forall|k: int| 0 <= k < j implies lex_le(views_of(out0)[k], name@) by {
                assert(views_of(out0)[k] == out0[k]@);
            }
            if (j as int) < out0.len() {
                assert(views_of(out0)[j as int] == out0[j as int]@);
            }
            lemma_sorted_insert(views_of(out0), j as int, name@);
            lemma_views_insert(out0, j as int, name);
        }
        out.insert(j, name);
        proof {
            assert(views_of(out@) == views_of(out0).insert(j as int, name@));
            assert(names@.take(i + 1) =~= names@.take(i as int).push(names@[i as int]));
            lemma_views_push(names@.take(i as int), names@[i as int]);
            assert(views_of(names@.take(i + 1)) == views_of(names@.take(i as int)).push(
                names@[i as int]@,
            ));
            assert(name@ == names@[i as int]@);
        }
        i += 1;
    }
    proof {
        assert(names@.take(i as int) =~= names@);
    }
    out
}

/// Two sorted name lists that hold the same names are identical and
/// identically ordered: enumerating twice with no topology change
/// yields the very same result.
pub proof fn lemma_available_ports_deterministic(a: Seq<Seq<char>>, b: Seq<Seq<char>>)
    requires
        sorted_by(a, lex_le_fn()),
        sorted_by(b, lex_le_fn()),
        a.to_multiset() == b.to_multiset(),
    ensures
        a == b,
{
    lemma_lex_total_ordering();
    lemma_sorted_unique(a, b, lex_le_fn());
    assert(a =~= b);
}

} // verus!
