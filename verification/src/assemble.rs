//! The result assembler: sorts the collected addresses under the canonical
//! order, removes duplicates, and pairs them with the law identifier.

use vstd::prelude::*;
use vstd::relations::sorted_by;
use vstd::seq_lib::lemma_sorted_unique;
use crate::address::{AddrView, Chapter};
use crate::order::{
    addr_le, addr_leq, addr_lt_exec, lemma_addr_le_total_ordering, lemma_addr_le_trans,
    lemma_addr_lt_trichotomy,
};

verus! {

/// Removes every run of equal adjacent elements down to its last member.
/// On a sorted sequence this removes all duplicates.
pub open spec fn dedup_adjacent(s: Seq<AddrView>) -> Seq<AddrView>
    decreases s.len(),
{
    if s.len() <= 1 {
        s
    } else if s[s.len() - 2] == s[s.len() - 1] {
        dedup_adjacent(s.drop_last())
    } else {
        dedup_adjacent(s.drop_last()).push(s.last())
    }
}

/// What the assembler does to the collected match list: canonical sort, then
/// removal of the (now adjacent) duplicates.
pub open spec fn assembled(s: Seq<AddrView>) -> Seq<AddrView> {
    dedup_adjacent(s.sort_by(addr_leq()))
}

/// Sorts addresses under the canonical order.
pub fn sort_addresses(v: Vec<Chapter>) -> (r: Vec<Chapter>)
    ensures
        r.deep_view() == v.deep_view().sort_by(addr_leq()),
        sorted_by(r.deep_view(), addr_leq()),
{
    broadcast use vstd::seq_lib::group_to_multiset_ensures;
    broadcast use vstd::multiset::group_multiset_axioms;

    let ghost full: Seq<AddrView> = v.deep_view();
    let mut rest = v;
    let mut out: Vec<Chapter> = Vec::new();
    proof {
        assert(out.deep_view() =~= Seq::<AddrView>::empty());
        assert(out.deep_view().to_multiset().add(rest.deep_view().to_multiset()) =~= full.to_multiset());
    }
    while rest.len() > 0
        invariant
            out.deep_view().to_multiset().add(rest.deep_view().to_multiset())
                == full.to_multiset(),
            sorted_by(out.deep_view(), addr_leq()),
            forall|i: int, j: int|
                0 <= i < out.deep_view().len() && 0 <= j < rest.deep_view().len() ==> addr_le(
                    #[trigger] out.deep_view()[i],
                    #[trigger] rest.deep_view()[j],
                ),
        decreases rest.len(),
    {
        let ghost pre: Seq<AddrView> = rest.deep_view();
        let mut m: usize = 0;
        let mut k: usize = 1;
        while k < rest.len()
            invariant
                rest.len() > 0,
                (m as int) < (k as int),
                k <= rest.len(),
                rest.deep_view() == pre,
                forall|j: int| 0 <= j < k ==> addr_le(pre[m as int], #[trigger] pre[j]),
            decreases rest.len() - k,
        {
            if addr_lt_exec(&rest[k], &rest[m]) {
                proof {
                    lemma_addr_lt_trichotomy(pre[k as int], pre[m as int]);
                    assert forall|j: int| 0 <= j < k + 1 implies addr_le(
                        pre[k as int],
                        #[trigger] pre[j],
                    ) by {
                        if j < k {
                            lemma_addr_le_trans(pre[k as int], pre[m as int], pre[j]);
                        }
                    }
                }
                m = k;
            } else {
                proof {
                    lemma_addr_lt_trichotomy(pre[k as int], pre[m as int]);
                }
            }
            k += 1;
        }
        let ghost outpre: Seq<AddrView> = out.deep_view();
        let x = rest.remove(m);
        proof {
            pre.to_multiset_ensures();
            assert(rest.deep_view() =~= pre.remove(m as int));
            assert(pre.remove(m as int).to_multiset() =~= pre.to_multiset().remove(
                pre[m as int],
            ));
            assert(pre.contains(pre[m as int])) by {
                let w: int = m as int;
                assert(0 <= w < pre.len() && pre[w] == pre[m as int]);
            }
        }
        out.push(x);
        proof {
            outpre.to_multiset_ensures();
            assert(out.deep_view() =~= outpre.push(x.deep_view()));
            assert(outpre.push(x@).to_multiset() =~= outpre.to_multiset().insert(x@));
            assert(out.deep_view().to_multiset().add(rest.deep_view().to_multiset())
                =~= full.to_multiset());
            // the chosen minimum keeps the prefix sorted and below the rest
            assert forall|i: int, j: int|
                0 <= i < out.deep_view().len() && 0 <= j < rest.deep_view().len() implies addr_le(
                #[trigger] out.deep_view()[i],
                #[trigger] rest.deep_view()[j],
            ) by {
                lemma_addr_lt_trichotomy(x@, x@);
                if j < m {
                    assert(rest.deep_view()[j] == pre[j]);
                } else {
                    assert(rest.deep_view()[j] == pre[j + 1]);
                }
            }
            assert(sorted_by(out.deep_view(), addr_leq()));
        }
    }
    proof {
        lemma_addr_le_total_ordering();
        full.lemma_sort_by_ensures(addr_leq());
        assert(rest.deep_view() =~= Seq::<AddrView>::empty());
        assert(out.deep_view().to_multiset() =~= full.sort_by(addr_leq()).to_multiset());
        lemma_sorted_unique(out.deep_view(), full.sort_by(addr_leq()), addr_leq());
        assert(out.deep_view() =~= full.sort_by(addr_leq()));
    }
    out
}

/// Removes adjacent equal addresses, keeping one element of each run.
pub fn dedup_addresses(v: Vec<Chapter>) -> (r: Vec<Chapter>)
    ensures
        r.deep_view() == dedup_adjacent(v.deep_view()),
{
    let ghost full: Seq<AddrView> = v.deep_view();
    let mut out: Vec<Chapter> = Vec::new();
    let mut i: usize = 0;
    proof {
        assert(full.take(0) =~= Seq::<AddrView>::empty());
        assert(out.deep_view() =~= dedup_adjacent(full.take(0)));
    }
    while i < v.len()
        invariant
            i <= v.len(),
            full == v.deep_view(),
            out.deep_view() == dedup_adjacent(full.take(i as int)),
        decreases v.len() - i,
    {
        let ghost outpre: Seq<AddrView> = out.deep_view();
        let push_it = i == 0 || !(v[i - 1].eq(&v[i]));
        if push_it {
            let c = v[i].clone();
            out.push(c);
        }
        proof {
            let t = full.take(i + 1);
            assert(t.drop_last() =~= full.take(i as int));
            assert(t.last() == full[i as int]);
            if i == 0 {
                assert(out.deep_view() =~= t);
                assert(dedup_adjacent(t) == t);
            } else {
                assert(t[t.len() - 2] == full[i - 1]);
                if push_it {
                    assert(dedup_adjacent(t) == dedup_adjacent(t.drop_last()).push(t.last()));
                    assert(out.deep_view() =~= outpre.push(full[i as int]));
                } else {
                    assert(dedup_adjacent(t) == dedup_adjacent(t.drop_last()));
                }
            }
        }
        i += 1;
    }
    proof {
        assert(full.take(v.len() as int) =~= full);
    }
    out
}

/// Duplicate removal keeps the input's last element, keeps only elements of
/// the input, and leaves no equal adjacent pair.
proof fn lemma_dedup_props(s: Seq<AddrView>)
    ensures
        s.len() == 0 ==> dedup_adjacent(s).len() == 0,
        s.len() > 0 ==> dedup_adjacent(s).len() > 0 && dedup_adjacent(s).last() == s.last(),
        forall|j: int|
            0 <= j < dedup_adjacent(s).len() ==> exists|k: int|
                0 <= k < s.len() && s[k] == #[trigger] dedup_adjacent(s)[j],
        forall|j: int|
            0 <= j < dedup_adjacent(s).len() - 1 ==> #[trigger] dedup_adjacent(s)[j]
                != dedup_adjacent(s)[j + 1],
    decreases s.len(),
{
    if s.len() <= 1 {
    } else {
        let sp = s.drop_last();
        lemma_dedup_props(sp);
        let d = dedup_adjacent(s);
        let dp = dedup_adjacent(sp);
        assert forall|j: int| 0 <= j < dp.len() implies exists|k: int|
            0 <= k < s.len() && s[k] == #[trigger] dp[j] by {
            let k = choose|k: int| 0 <= k < sp.len() && sp[k] == dp[j];
            assert(s[k] == sp[k]);
        }
        if s[s.len() - 2] == s[s.len() - 1] {
            assert(d == dp);
            assert(sp.last() == s[s.len() - 2]);
        } else {
            assert(d == dp.push(s.last()));
            assert forall|j: int| 0 <= j < d.len() implies exists|k: int|
                0 <= k < s.len() && s[k] == #[trigger] d[j] by {
                if j < dp.len() {
                    assert(d[j] == dp[j]);
                } else {
                    assert(d[j] == s[s.len() - 1]);
                }
            }
            assert forall|j: int| 0 <= j < d.len() - 1 implies #[trigger] d[j] != d[j + 1] by {
                if j == d.len() - 2 && dp.len() > 0 {
                    assert(d[j] == dp.last());
                    assert(dp.last() == sp.last());
                    assert(d[j + 1] == s.last());
                }
            }
        }
    }
}

/// Duplicate removal preserves sortedness.
proof fn lemma_dedup_sorted(s: Seq<AddrView>)
    requires
        sorted_by(s, addr_leq()),
    ensures
        sorted_by(dedup_adjacent(s), addr_leq()),
    decreases s.len(),
{
    if s.len() <= 1 {
    } else {
        let sp = s.drop_last();
        assert(sorted_by(sp, addr_leq()));
        lemma_dedup_sorted(sp);
        lemma_dedup_props(sp);
        let d = dedup_adjacent(s);
        let dp = dedup_adjacent(sp);
        if s[s.len() - 2] == s[s.len() - 1] {
        } else {
            assert forall|i: int, j: int| 0 <= i < j < d.len() implies addr_leq()(
                d[i],
                d[j],
            ) by {
                if j < dp.len() {
                    assert(addr_leq()(dp[i], dp[j]));
                } else {
                    let k = choose|k: int| 0 <= k < sp.len() && sp[k] == dp[i];
                    assert(sp[k] == s[k]);
                    assert(addr_leq()(s[k], s.last()));
                    assert(d[i] == dp[i]);
                    assert(d[j] == s.last());
                }
            }
        }
    }
}

/// Duplicate removal leaves a sequence without equal adjacent pairs alone.
proof fn lemma_dedup_identity(s: Seq<AddrView>)
    requires
        forall|j: int| 0 <= j < s.len() - 1 ==> #[trigger] s[j] != s[j + 1],
    ensures
        dedup_adjacent(s) == s,
    decreases s.len(),
{
    if s.len() <= 1 {
    } else {
        let sp = s.drop_last();
        lemma_dedup_identity(sp);
        assert(dedup_adjacent(s) =~= sp.push(s.last()));
        assert(sp.push(s.last()) =~= s);
    }
}

/// Sorting leaves an already sorted sequence alone.
proof fn lemma_sort_identity(s: Seq<AddrView>)
    requires
        sorted_by(s, addr_leq()),
    ensures
        s.sort_by(addr_leq()) == s,
{
    lemma_addr_le_total_ordering();
    s.lemma_sort_by_ensures(addr_leq());
    lemma_sorted_unique(s, s.sort_by(addr_leq()), addr_leq());
}

/// Duplicate removal keeps exactly the elements of its input.
proof fn lemma_dedup_complete(s: Seq<AddrView>)
    ensures
        forall|x: AddrView| dedup_adjacent(s).contains(x) <==> s.contains(x),
    decreases s.len(),
{
    if s.len() <= 1 {
    } else {
        let sp = s.drop_last();
        lemma_dedup_complete(sp);
        lemma_dedup_props(sp);
        let d = dedup_adjacent(s);
        let dp = dedup_adjacent(sp);
        assert forall|x: AddrView| d.contains(x) <==> s.contains(x) by {
            if sp.contains(x) {
                let k = choose|k: int| 0 <= k < sp.len() && sp[k] == x;
                assert(s[k] == x);
                assert(s.contains(x));
            }
            if s[s.len() - 2] == s[s.len() - 1] {
                assert(d == dp);
                if s.contains(x) {
                    let k = choose|k: int| 0 <= k < s.len() && s[k] == x;
                    if k == s.len() - 1 {
                        assert(sp[s.len() - 2] == x);
                    } else {
                        assert(sp[k] == x);
                    }
                    assert(sp.contains(x));
                }
            } else {
                assert(d == dp.push(s.last()));
                if s.contains(x) {
                    if x == s.last() {
                        assert(d[d.len() - 1] == x);
                        assert(d.contains(x));
                    } else {
                        let k = choose|k: int| 0 <= k < s.len() && s[k] == x;
                        assert(sp[k] == x);
                        assert(sp.contains(x));
                        let k2 = choose|k2: int| 0 <= k2 < dp.len() && dp[k2] == x;
                        assert(d[k2] == x);
                        assert(d.contains(x));
                    }
                }
                if d.contains(x) {
                    let k = choose|k: int| 0 <= k < d.len() && d[k] == x;
                    if k == d.len() - 1 {
                        assert(s[s.len() - 1] == x);
                        assert(s.contains(x));
                    } else {
                        assert(dp[k] == x);
                        assert(dp.contains(x));
                        assert(sp.contains(x));
                    }
                }
            }
        }
    }
}

/// Law: the assembled match list is strictly increasing under the canonical
/// order — so it is sorted and holds no duplicates — and it holds exactly
/// the addresses that were collected.
pub proof fn lemma_assembled_canonical(s: Seq<AddrView>)
    ensures
        sorted_by(assembled(s), addr_leq()),
        forall|i: int, j: int|
            0 <= i < j < assembled(s).len() ==> #[trigger] assembled(s)[i] != #[trigger] assembled(
                s,
            )[j],
        forall|x: AddrView| assembled(s).contains(x) <==> s.contains(x),
{
    broadcast use vstd::seq_lib::group_to_multiset_ensures;
    broadcast use vstd::multiset::group_multiset_axioms;

    lemma_addr_le_total_ordering();
    let t = s.sort_by(addr_leq());
    s.lemma_sort_by_ensures(addr_leq());
    lemma_dedup_sorted(t);
    lemma_dedup_props(t);
    lemma_dedup_complete(t);
    let d = assembled(s);
    assert forall|i: int, j: int| 0 <= i < j < d.len() implies #[trigger] d[i]
        != #[trigger] d[j] by {
        if d[i] == d[j] {
            assert(addr_leq()(d[i], d[i + 1]));
            assert(addr_leq()(d[i + 1], d[j]) || i + 1 == j);
            if i + 1 < j {
                assert(addr_leq()(d[i + 1], d[i]));
                lemma_addr_lt_trichotomy(d[i], d[i + 1]);
            }
        }
    }
    assert forall|x: AddrView| d.contains(x) <==> s.contains(x) by {
        s.to_multiset_ensures();
        t.to_multiset_ensures();
        assert(s.to_multiset().count(x) == t.to_multiset().count(x));
        assert(s.contains(x) <==> s.to_multiset().count(x) > 0);
        assert(t.contains(x) <==> t.to_multiset().count(x) > 0);
    }
}

/// Law: the assembler's sort-then-dedup is idempotent — applied to its own
/// output, it returns that output unchanged.
pub proof fn lemma_assembled_idempotent(s: Seq<AddrView>)
    ensures
        assembled(assembled(s)) == assembled(s),
{
    lemma_addr_le_total_ordering();
    let t = s.sort_by(addr_leq());
    s.lemma_sort_by_ensures(addr_leq());
    lemma_dedup_sorted(t);
    lemma_dedup_props(t);
    lemma_sort_identity(dedup_adjacent(t));
    lemma_dedup_identity(dedup_adjacent(t));
}

/// The final output unit: a law identifier paired with the deduplicated,
/// canonically ordered addresses where the search term appeared.
#[derive(Debug)]
pub struct LawParagraph {
    pub num: String,
    pub chapter_data: Vec<Chapter>,
}

/// Mathematical value of a citation record.
#[verifier::ext_equal]
pub ghost struct LawParagraphView {
    pub num: Seq<char>,
    pub chapter_data: Seq<AddrView>,
}

impl View for LawParagraph {
    type V = LawParagraphView;

    open spec fn view(&self) -> LawParagraphView {
        LawParagraphView { num: self.num@, chapter_data: self.chapter_data.deep_view() }
    }
}

impl DeepView for LawParagraph {
    type V = LawParagraphView;

    open spec fn deep_view(&self) -> LawParagraphView {
        self.view()
    }
}

fn chapters_eq(a: &Vec<Chapter>, b: &Vec<Chapter>) -> (r: bool)
    ensures
        r == (a.deep_view() == b.deep_view()),
{
    if a.len() != b.len() {
        proof {
            assert(a.deep_view().len() == a@.len());
            assert(b.deep_view().len() == b@.len());
        }
        return false;
    }
    let mut i: usize = 0;
    while i < a.len()
        invariant
            i <= a.len(),
            a.len() == b.len(),
            forall|j: int| 0 <= j < i ==> a.deep_view()[j] == b.deep_view()[j],
        decreases a.len() - i,
    {
        if !(a[i].eq(&b[i])) {
            proof {
                assert(a.deep_view()[i as int] == a@[i as int].deep_view());
                assert(b.deep_view()[i as int] == b@[i as int].deep_view());
            }
            return false;
        }
        i += 1;
    }
    proof {
        assert(a.deep_view() =~= b.deep_view());
    }
    true
}

impl vstd::std_specs::cmp::PartialEqSpecImpl for LawParagraph {
    open spec fn obeys_eq_spec() -> bool {
        true
    }

    open spec fn eq_spec(&self, other: &LawParagraph) -> bool {
        self@ == other@
    }
}

impl PartialEq for LawParagraph {
    fn eq(&self, other: &Self) -> (r: bool)
        ensures
            r == (self@ == other@),
    {
        let r = self.num == other.num && chapters_eq(&self.chapter_data, &other.chapter_data);
        proof {
            if r {
                assert(self@ =~= other@);
            }
        }
        r
    }
}

/// Builds the citation record: the law identifier paired with the collected
/// match list after the canonical sort and the removal of duplicates.
pub fn assemble_record(num: String, matches: Vec<Chapter>) -> (r: LawParagraph)
    ensures
        r@.num == num@,
        r@.chapter_data == assembled(matches.deep_view()),
{
    let sorted = sort_addresses(matches);
    let data = dedup_addresses(sorted);
    LawParagraph { num, chapter_data: data }
}

} // verus!
