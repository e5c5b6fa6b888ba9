//! Display ordering of interface names: primary key the category rank,
//! secondary key code-point lexicographic name order, and a verified
//! insertion sort over that order.

use vstd::prelude::*;
use vstd::seq_lib::{group_to_multiset_ensures, lemma_multiset_commutative};
use vstd::multiset::{group_multiset_axioms, Multiset};

use crate::iface::{classify, get_interface_type, rank, InterfaceType};

verus! {

/// Code-point lexicographic order on names: the empty name first, otherwise
/// decided by the first differing character.
pub open spec fn lex_le(a: Seq<char>, b: Seq<char>) -> bool
    decreases a.len(),
{
    if a.len() == 0 {
        true
    } else if b.len() == 0 {
        false
    } else if (a[0] as int) < (b[0] as int) {
        true
    } else if (a[0] as int) > (b[0] as int) {
        false
    } else {
        lex_le(a.drop_first(), b.drop_first())
    }
}

/// The display order: lower category rank first; within one category,
/// lexicographic name order.
pub open spec fn display_le(a: Seq<char>, b: Seq<char>) -> bool {
    rank(classify(a)) < rank(classify(b)) || (rank(classify(a)) == rank(classify(b)) && lex_le(
        a,
        b,
    ))
}

/// True when the list is in display order.
pub open spec fn sorted_for_display(s: Seq<String>) -> bool {
    forall|i: int, j: int|
        0 <= i < j < s.len() ==> display_le(#[trigger] s[i]@, #[trigger] s[j]@)
}

/// The lexicographic order relates every pair of names one way or the other.
pub proof fn lemma_lex_le_total(a: Seq<char>, b: Seq<char>)
    ensures
        lex_le(a, b) || lex_le(b, a),
    decreases a.len(),
{
    if a.len() != 0 && b.len() != 0 && (a[0] as int) == (b[0] as int) {
        lemma_lex_le_total(a.drop_first(), b.drop_first());
    }
}

/// The lexicographic order is transitive.
pub proof fn lemma_lex_le_trans(a: Seq<char>, b: Seq<char>, c: Seq<char>)
    requires
        lex_le(a, b),
        lex_le(b, c),
    ensures
        lex_le(a, c),
    decreases a.len(),
{
    if a.len() != 0 {
        assert(b.len() != 0);
        assert(c.len() != 0);
        if (a[0] as int) == (b[0] as int) && (b[0] as int) == (c[0] as int) {
            lemma_lex_le_trans(a.drop_first(), b.drop_first(), c.drop_first());
        } else {
            assert((a[0] as int) < (c[0] as int));
        }
    }
}

/// Names related both ways by the lexicographic order are equal; with the
/// category rank equal as well this makes ties in the display order carry
/// no information, so any sort over it is trivially stable.
pub proof fn lemma_lex_le_antisymmetric(a: Seq<char>, b: Seq<char>)
    requires
        lex_le(a, b),
        lex_le(b, a),
    ensures
        a =~= b,
    decreases a.len(),
{
    if a.len() == 0 {
        assert(b.len() == 0);
    } else {
        assert(b.len() != 0);
        assert((a[0] as int) == (b[0] as int));
        assert(a[0] == b[0]);
        lemma_lex_le_antisymmetric(a.drop_first(), b.drop_first());
        assert(a =~= seq![a[0]] + a.drop_first());
        assert(b =~= seq![b[0]] + b.drop_first());
    }
}

/// The display order relates every pair of names one way or the other.
pub proof fn lemma_display_le_total(a: Seq<char>, b: Seq<char>)
    ensures
        display_le(a, b) || display_le(b, a),
{
    lemma_lex_le_total(a, b);
}

/// The display order is transitive.
pub proof fn lemma_display_le_trans(a: Seq<char>, b: Seq<char>, c: Seq<char>)
    requires
        display_le(a, b),
        display_le(b, c),
    ensures
        display_le(a, c),
{
    if rank(classify(a)) == rank(classify(b)) && rank(classify(b)) == rank(classify(c)) {
        lemma_lex_le_trans(a, b, c);
    }
}

/// Law: in a display-sorted list, an interface of a lower-ranked category
/// precedes every interface of a higher-ranked category, whatever the names.
pub proof fn lemma_sorted_category_order(s: Seq<String>, i: int, j: int)
    requires
        sorted_for_display(s),
        0 <= i < j < s.len(),
        classify(s[i]@) != classify(s[j]@),
    ensures
        rank(classify(s[i]@)) < rank(classify(s[j]@)),
{
    assert(display_le(s[i]@, s[j]@));
}

/// The display rank of a category, as a machine integer.
fn rank_exec(t: InterfaceType) -> (r: u8)
    ensures
        r as int == rank(t),
{
    match t {
        InterfaceType::Wireless => 0,
        InterfaceType::Ethernet => 1,
        InterfaceType::Loopback => 2,
        InterfaceType::Unknown => 3,
    }
}

/// Decides the lexicographic order on two names.
fn lex_le_exec(a: &str, b: &str) -> (r: bool)
    ensures
        r == lex_le(a@, b@),
{
    let al = a.unicode_len();
    let bl = b.unicode_len();
    let mut i: usize = 0;
    proof {
        assert(a@.skip(0) =~= a@);
        assert(b@.skip(0) =~= b@);
    }
    loop
        invariant
            i <= al,
            i <= bl,
            al == a@.len(),
            bl == b@.len(),
            lex_le(a@, b@) == lex_le(a@.skip(i as int), b@.skip(i as int)),
        decreases al - i,
    {
        if i >= al {
            return true;
        }
        if i >= bl {
            return false;
        }
        let ca = a.get_char(i);
        let cb = b.get_char(i);
        if (ca as u32) < (cb as u32) {
            return true;
        }
        if (ca as u32) > (cb as u32) {
            return false;
        }
        proof {
            assert(a@.skip(i as int).drop_first() =~= a@.skip(i + 1));
            assert(b@.skip(i as int).drop_first() =~= b@.skip(i + 1));
        }
        i += 1;
    }
}

/// Decides the display order on two names.
fn display_le_exec(a: &String, b: &String) -> (r: bool)
    ensures
        r == display_le(a@, b@),
{
    let ra = rank_exec(get_interface_type(a.as_str()));
    let rb = rank_exec(get_interface_type(b.as_str()));
    if ra < rb {
        true
    } else if ra > rb {
        false
    } else {
        lex_le_exec(a.as_str(), b.as_str())
    }
}

/// Inserting an element anywhere adds exactly it to the list's contents.
proof fn lemma_insert_multiset(s: Seq<String>, pos: int, x: String)
    requires
        0 <= pos <= s.len(),
    ensures
        s.insert(pos, x).to_multiset() =~= s.to_multiset().insert(x),
{
    broadcast use group_to_multiset_ensures;
    broadcast use group_multiset_axioms;

    let t = s.insert(pos, x);
    assert(t =~= s.take(pos) + (seq![x] + s.skip(pos)));
    assert(s =~= s.take(pos) + s.skip(pos));
    lemma_multiset_commutative(s.take(pos), s.skip(pos));
    lemma_multiset_commutative(s.take(pos), seq![x] + s.skip(pos));
    lemma_multiset_commutative(seq![x], s.skip(pos));
    assert(seq![x] =~= Seq::<String>::empty().push(x));
    assert(Seq::<String>::empty().to_multiset().len() == 0);
    assert(Seq::<String>::empty().to_multiset() =~= Multiset::empty());
}

/// Inserts a name into a display-sorted list, keeping it sorted.
fn insert_sorted(v: &mut Vec<String>, x: String)
    requires
        sorted_for_display(old(v)@),
    ensures
        sorted_for_display(final(v)@),
        final(v)@.to_multiset() == old(v)@.to_multiset().insert(x),
{
    let mut pos: usize = v.len();
    while pos > 0 && !display_le_exec(&v[pos - 1], &x)
        invariant
            pos <= v@.len(),
            v@ == old(v)@,
            sorted_for_display(v@),
            forall|k: int| pos <= k < v@.len() ==> !display_le(#[trigger] v@[k]@, x@),
        decreases pos,
    {
        pos -= 1;
    }
    proof {
        let s = v@;
        let p = pos as int;
        s.insert_ensures(p, x);
        lemma_insert_multiset(s, p, x);
        let t = s.insert(p, x);
        assert forall|i: int, j: int| 0 <= i < j < t.len() implies display_le(t[i]@, t[j]@) by {
            if j < p {
                assert(t[i] == s[i] && t[j] == s[j]);
            } else if i < p && j == p {
                assert(t[j] == x);
                if i < p - 1 {
                    assert(display_le(s[i]@, s[p - 1]@));
                    lemma_display_le_trans(s[i]@, s[p - 1]@, x@);
                } else {
                    assert(display_le(s[p - 1]@, x@));
                }
            } else if i < p && j > p {
                assert(t[i] == s[i] && t[j] == s[j - 1]);
                if i < p - 1 {
                    assert(display_le(s[i]@, s[j - 1]@));
                } else {
                    assert(!display_le(s[j - 1]@, x@));
                    lemma_display_le_total(s[j - 1]@, x@);
                    lemma_display_le_trans(s[p - 1]@, x@, s[j - 1]@);
                }
            } else if i == p {
                assert(t[i] == x && t[j] == s[j - 1]);
                assert(!display_le(s[j - 1]@, x@));
                lemma_display_le_total(s[j - 1]@, x@);
            } else {
                assert(t[i] == s[i - 1] && t[j] == s[j - 1]);
            }
        }
    }
    v.insert(pos, x);
}

/// Reorders the interface list for display: wireless first, then ethernet,
/// then loopback, then the rest, alphabetically within each category. The
/// result is a permutation of the input in display order; ties in the order
/// are only between equal names, so the sort is stable.
pub fn sort_interface_list(interfaces: &mut Vec<String>)
    ensures
        sorted_for_display(final(interfaces)@),
        final(interfaces)@.to_multiset() == old(interfaces)@.to_multiset(),
{
    broadcast use group_to_multiset_ensures;

    let mut out: Vec<String> = Vec::new();
    let mut i: usize = 0;
    while i < interfaces.len()
        invariant
            i <= interfaces@.len(),
            interfaces@ == old(interfaces)@,
            sorted_for_display(out@),
            out@.to_multiset() == interfaces@.take(i as int).to_multiset(),
        decreases interfaces@.len() - i,
    {
        let x = interfaces[i].clone();
        proof {
            interfaces@.take(i as int).to_multiset_ensures();
            assert(interfaces@.take(i + 1) =~= interfaces@.take(i as int).push(
                interfaces@[i as int],
            ));
        }
        insert_sorted(&mut out, x);
        i += 1;
    }
    proof {
        assert(interfaces@.take(interfaces@.len() as int) =~= interfaces@);
    }
    *interfaces = out;
}

} // verus!
