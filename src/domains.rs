use vstd::prelude::*;
use vstd::multiset::Multiset;
use vstd::seq_lib::*;

verus! {

/// The names of a domain list, as character sequences.
pub open spec fn names_of(v: Seq<String>) -> Seq<Seq<char>> {
    v.map_values(|s: String| s@)
}

/// A domain list taken without its order: how often each name occurs.
pub open spec fn domain_bag(v: Seq<String>) -> Multiset<Seq<char>> {
    names_of(v).to_multiset()
}

/// Whether two domain lists differ once both are sorted, that is whether
/// some name occurs a different number of times in them.
pub open spec fn domains_differ(a: Seq<String>, b: Seq<String>) -> bool {
    domain_bag(a) != domain_bag(b)
}

proof fn lemma_names_remove(v: Seq<String>, j: int)
    requires
        0 <= j < v.len(),
    ensures
        names_of(v.remove(j)) == names_of(v).remove(j),
{
    assert(names_of(v.remove(j)) =~= names_of(v).remove(j));
}

/// Whether the configured domains differ from those of a certificate,
/// ignoring their order.
pub fn domains_changed(configured: &Vec<String>, current: &Vec<String>) -> (r: bool)
    ensures
        r == domains_differ(configured@, current@),
{
    broadcast use group_to_multiset_ensures, vstd::multiset::group_multiset_axioms;

    let ghost a = names_of(configured@);
    let ghost b = names_of(current@);
    let mut rest: Vec<String> = current.clone();
    assert(names_of(rest@) =~= b);
    assert(a.subrange(0, 0) =~= Seq::<Seq<char>>::empty());
    let mut i: usize = 0;
    while i < configured.len()
        invariant
            i <= configured.len(),
            a == names_of(configured@),
            b == names_of(current@),
            a.subrange(0, i as int).to_multiset().add(names_of(rest@).to_multiset()) =~= b.to_multiset(),
        decreases configured.len() - i,
    {
        let name = &configured[i];
        let mut j: usize = 0;
        let mut found = false;
        while j < rest.len()
            invariant_except_break
                !found,
            invariant
                j <= rest.len(),
                forall|k: int| 0 <= k < j ==> rest@[k]@ != name@,
            ensures
                found ==> j < rest.len() && rest@[j as int]@ == name@,
                !found ==> forall|k: int| 0 <= k < rest.len() ==> rest@[k]@ != name@,
            decreases rest.len() - j,
        {
            if rest[j] == *name {
                found = true;
                break;
            }
            j = j + 1;
        }
        let ghost x = name@;
        assert(a.subrange(0, i + 1) =~= a.subrange(0, i as int).push(x));
        if !found {
            let ghost r = names_of(rest@);
            assert(!r.contains(x)) by {
                if r.contains(x) {
                    let k = choose|k: int| 0 <= k < r.len() && r[k] == x;
                    assert(rest@[k]@ == x);
                }
            }
            proof { r.to_multiset_ensures(); }
            assert(r.to_multiset().count(x) == 0);
            proof {
                let n = a.len() as int;
                lemma_multiset_commutative(a.subrange(0, i + 1), a.subrange(i + 1, n));
                assert(a =~= a.subrange(0, i + 1) + a.subrange(i + 1, n));
                to_multiset_build(a.subrange(0, i as int), x);
                assert(a.to_multiset().count(x) > b.to_multiset().count(x));
            }
            return true;
        }
        proof {
            lemma_names_remove(rest@, j as int);
        }
        let ghost before = names_of(rest@);
        rest.remove(j);
        proof {
            assert(before[j as int] == x);
            to_multiset_contains(before, x);
            to_multiset_remove(before, j as int);
            to_multiset_build(a.subrange(0, i as int), x);
        }
        i = i + 1;
    }
    proof {
        assert(a.subrange(0, a.len() as int) =~= a);
        let r = names_of(rest@);
        if rest.len() == 0 {
            assert(r =~= Seq::<Seq<char>>::empty());
            assert(a.to_multiset() =~= b.to_multiset());
        } else {
            assert(r.to_multiset().len() > 0);
            assert(a.to_multiset().len() < b.to_multiset().len());
        }
    }
    rest.len() != 0
}

} // verus!

verus! {

proof fn lemma_bag_respects_permutation(a: Seq<String>, b: Seq<String>)
    requires
        a.to_multiset() == b.to_multiset(),
    ensures
        domain_bag(a) == domain_bag(b),
    decreases a.len(),
{
    broadcast use group_to_multiset_ensures, vstd::multiset::group_multiset_axioms;

    if a.len() == 0 {
        to_multiset_len(a);
        to_multiset_len(b);
        assert(b.len() == 0);
        assert(names_of(a) =~= names_of(b));
    } else {
        let x = a.last();
        let rest_a = a.drop_last();
        assert(a =~= rest_a.push(x));
        to_multiset_build(rest_a, x);
        assert(b.to_multiset().count(x) > 0);
        to_multiset_contains(b, x);
        let j = choose|j: int| 0 <= j < b.len() && b[j] == x;
        to_multiset_remove(b, j);
        assert(rest_a.to_multiset() =~= b.remove(j).to_multiset());
        lemma_bag_respects_permutation(rest_a, b.remove(j));
        lemma_names_remove(b, j);
        let nb = names_of(b);
        assert(names_of(a) =~= names_of(rest_a).push(x@));
        to_multiset_build(names_of(rest_a), x@);
        to_multiset_remove(nb, j);
        to_multiset_contains(nb, x@);
        assert(nb[j] == x@);
        assert(domain_bag(a) =~= domain_bag(b));
    }
}

/// Reordering a domain list is never a change of domains: two lists that
/// hold the same names the same number of times do not differ.
pub proof fn lemma_permuted_domains_unchanged(a: Seq<String>, b: Seq<String>)
    requires
        a.to_multiset() == b.to_multiset(),
    ensures
        !domains_differ(a, b),
{
    lemma_bag_respects_permutation(a, b);
}

} // verus!
