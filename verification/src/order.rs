//! The canonical total order on addresses: fields compare in declared order,
//! `None` sorts before `Some`, integers compare numerically, strings compare
//! lexicographically by code point, and a sub-item pair compares depth first,
//! then code.

use vstd::prelude::*;
use vstd::relations::total_ordering;
use crate::address::{opt_view, sub_view, AddrView, Chapter};

verus! {

/// Strict lexicographic order on character sequences, by code point.
pub open spec fn chars_lt(a: Seq<char>, b: Seq<char>) -> bool
    decreases a.len(),
{
    if b.len() == 0 {
        false
    } else if a.len() == 0 {
        true
    } else if a[0] == b[0] {
        chars_lt(a.drop_first(), b.drop_first())
    } else {
        (a[0] as u32) < (b[0] as u32)
    }
}

/// Strict order on optional counters: `None` sorts before `Some`.
pub open spec fn opt_num_lt(a: Option<usize>, b: Option<usize>) -> bool {
    match (a, b) {
        (None, Some(_)) => true,
        (Some(x), Some(y)) => x < y,
        _ => false,
    }
}

/// Strict order on optional string codes: `None` sorts before `Some`.
pub open spec fn opt_chars_lt(a: Option<Seq<char>>, b: Option<Seq<char>>) -> bool {
    match (a, b) {
        (None, Some(_)) => true,
        (Some(x), Some(y)) => chars_lt(x, y),
        _ => false,
    }
}

/// Strict order on optional sub-item pairs: depth first, then code.
pub open spec fn sub_item_lt(a: Option<(usize, Seq<char>)>, b: Option<(usize, Seq<char>)>) -> bool {
    match (a, b) {
        (None, Some(_)) => true,
        (Some(x), Some(y)) => x.0 < y.0 || (x.0 == y.0 && chars_lt(x.1, y.1)),
        _ => false,
    }
}

/// Strict order on addresses: the first field (in declared order) on which
/// the two addresses differ decides.
pub open spec fn addr_lt(a: AddrView, b: AddrView) -> bool {
    if a.part != b.part {
        opt_num_lt(a.part, b.part)
    } else if a.chapter != b.chapter {
        opt_num_lt(a.chapter, b.chapter)
    } else if a.section != b.section {
        opt_num_lt(a.section, b.section)
    } else if a.subsection != b.subsection {
        opt_num_lt(a.subsection, b.subsection)
    } else if a.division != b.division {
        opt_num_lt(a.division, b.division)
    } else if a.article != b.article {
        chars_lt(a.article, b.article)
    } else if a.paragraph != b.paragraph {
        opt_chars_lt(a.paragraph, b.paragraph)
    } else if a.item != b.item {
        opt_chars_lt(a.item, b.item)
    } else if a.sub_item != b.sub_item {
        sub_item_lt(a.sub_item, b.sub_item)
    } else if a.suppl_provision_title != b.suppl_provision_title {
        opt_chars_lt(a.suppl_provision_title, b.suppl_provision_title)
    } else {
        false
    }
}

/// The canonical (non-strict) order on addresses.
pub open spec fn addr_le(a: AddrView, b: AddrView) -> bool {
    addr_lt(a, b) || a == b
}

/// The order as a binary relation value, the shape vstd's sorting lemmas use.
pub open spec fn addr_leq() -> spec_fn(AddrView, AddrView) -> bool {
    |a: AddrView, b: AddrView| addr_le(a, b)
}

/// Of two distinct character sequences, exactly one is lexicographically
/// smaller; a sequence is never smaller than itself.
pub proof fn lemma_chars_lt_trichotomy(a: Seq<char>, b: Seq<char>)
    ensures
        a == b <==> (!chars_lt(a, b) && !chars_lt(b, a)),
        !(chars_lt(a, b) && chars_lt(b, a)),
    decreases a.len(),
{
    if a.len() == 0 && b.len() == 0 {
        assert(a =~= b);
    } else if a.len() != 0 && b.len() != 0 && a[0] == b[0] {
        lemma_chars_lt_trichotomy(a.drop_first(), b.drop_first());
        if a.drop_first() == b.drop_first() {
            assert forall|i: int| 0 <= i < a.len() implies a[i] == b[i] by {
                if i > 0 {
                    assert(a[i] == a.drop_first()[i - 1]);
                    assert(b[i] == b.drop_first()[i - 1]);
                }
            }
            assert(a =~= b);
        }
        if a == b {
            assert(a.drop_first() =~= b.drop_first());
        }
    } else if a.len() != 0 && b.len() != 0 {
        // distinct characters have distinct code points
        vstd::utf8::char_u32_cast(a[0], a[0] as u32);
        vstd::utf8::char_u32_cast(b[0], b[0] as u32);
        assert((a[0] as u32) != (b[0] as u32));
    }
}

/// Lexicographic order on character sequences is transitive.
pub proof fn lemma_chars_lt_trans(a: Seq<char>, b: Seq<char>, c: Seq<char>)
    requires
        chars_lt(a, b),
        chars_lt(b, c),
    ensures
        chars_lt(a, c),
    decreases a.len(),
{
    if b.len() == 0 || c.len() == 0 {
        // chars_lt(b, c) forces c.len() != 0; chars_lt(a, b) forces b.len() != 0
    } else if a.len() == 0 {
    } else {
        if a[0] == b[0] && b[0] == c[0] {
            lemma_chars_lt_trans(a.drop_first(), b.drop_first(), c.drop_first());
        }
    }
}

proof fn lemma_opt_chars_trichotomy(a: Option<Seq<char>>, b: Option<Seq<char>>)
    ensures
        a == b <==> (!opt_chars_lt(a, b) && !opt_chars_lt(b, a)),
        !(opt_chars_lt(a, b) && opt_chars_lt(b, a)),
{
    match (a, b) {
        (Some(x), Some(y)) => {
            lemma_chars_lt_trichotomy(x, y);
        },
        _ => {},
    }
}

proof fn lemma_opt_chars_trans(a: Option<Seq<char>>, b: Option<Seq<char>>, c: Option<Seq<char>>)
    requires
        opt_chars_lt(a, b),
        opt_chars_lt(b, c),
    ensures
        opt_chars_lt(a, c),
{
    match (a, b, c) {
        (Some(x), Some(y), Some(z)) => {
            lemma_chars_lt_trans(x, y, z);
        },
        _ => {},
    }
}

proof fn lemma_sub_item_trichotomy(a: Option<(usize, Seq<char>)>, b: Option<(usize, Seq<char>)>)
    ensures
        a == b <==> (!sub_item_lt(a, b) && !sub_item_lt(b, a)),
        !(sub_item_lt(a, b) && sub_item_lt(b, a)),
{
    match (a, b) {
        (Some(x), Some(y)) => {
            lemma_chars_lt_trichotomy(x.1, y.1);
            if x.0 == y.0 && x.1 == y.1 {
                assert(a == b);
            }
        },
        _ => {},
    }
}

proof fn lemma_sub_item_trans(
    a: Option<(usize, Seq<char>)>,
    b: Option<(usize, Seq<char>)>,
    c: Option<(usize, Seq<char>)>,
)
    requires
        sub_item_lt(a, b),
        sub_item_lt(b, c),
    ensures
        sub_item_lt(a, c),
{
    match (a, b, c) {
        (Some(x), Some(y), Some(z)) => {
            if x.0 == y.0 && y.0 == z.0 {
                lemma_chars_lt_trans(x.1, y.1, z.1);
            }
        },
        _ => {},
    }
}

/// Of two distinct addresses, exactly one precedes the other; an address
/// never strictly precedes itself.
pub proof fn lemma_addr_lt_trichotomy(a: AddrView, b: AddrView)
    ensures
        a == b <==> (!addr_lt(a, b) && !addr_lt(b, a)),
        !(addr_lt(a, b) && addr_lt(b, a)),
{
    lemma_chars_lt_trichotomy(a.article, b.article);
    lemma_opt_chars_trichotomy(a.paragraph, b.paragraph);
    lemma_opt_chars_trichotomy(a.item, b.item);
    lemma_sub_item_trichotomy(a.sub_item, b.sub_item);
    lemma_opt_chars_trichotomy(a.suppl_provision_title, b.suppl_provision_title);
    if !addr_lt(a, b) && !addr_lt(b, a) {
        assert(a =~= b);
    }
}

/// The strict address order is transitive.
pub proof fn lemma_addr_lt_trans(a: AddrView, b: AddrView, c: AddrView)
    requires
        addr_lt(a, b),
        addr_lt(b, c),
    ensures
        addr_lt(a, c),
{
    lemma_chars_lt_trichotomy(a.article, b.article);
    lemma_chars_lt_trichotomy(b.article, c.article);
    lemma_chars_lt_trichotomy(a.article, c.article);
    lemma_opt_chars_trichotomy(a.paragraph, b.paragraph);
    lemma_opt_chars_trichotomy(b.paragraph, c.paragraph);
    lemma_opt_chars_trichotomy(a.paragraph, c.paragraph);
    lemma_opt_chars_trichotomy(a.item, b.item);
    lemma_opt_chars_trichotomy(b.item, c.item);
    lemma_opt_chars_trichotomy(a.item, c.item);
    lemma_sub_item_trichotomy(a.sub_item, b.sub_item);
    lemma_sub_item_trichotomy(b.sub_item, c.sub_item);
    lemma_sub_item_trichotomy(a.sub_item, c.sub_item);
    lemma_opt_chars_trichotomy(a.suppl_provision_title, b.suppl_provision_title);
    lemma_opt_chars_trichotomy(b.suppl_provision_title, c.suppl_provision_title);
    lemma_opt_chars_trichotomy(a.suppl_provision_title, c.suppl_provision_title);
    if a.article != b.article && b.article != c.article && chars_lt(a.article, b.article)
        && chars_lt(b.article, c.article) {
        lemma_chars_lt_trans(a.article, b.article, c.article);
    }
    if opt_chars_lt(a.paragraph, b.paragraph) && opt_chars_lt(b.paragraph, c.paragraph) {
        lemma_opt_chars_trans(a.paragraph, b.paragraph, c.paragraph);
    }
    if opt_chars_lt(a.item, b.item) && opt_chars_lt(b.item, c.item) {
        lemma_opt_chars_trans(a.item, b.item, c.item);
    }
    if sub_item_lt(a.sub_item, b.sub_item) && sub_item_lt(b.sub_item, c.sub_item) {
        lemma_sub_item_trans(a.sub_item, b.sub_item, c.sub_item);
    }
    if opt_chars_lt(a.suppl_provision_title, b.suppl_provision_title) && opt_chars_lt(
        b.suppl_provision_title,
        c.suppl_provision_title,
    ) {
        lemma_opt_chars_trans(
            a.suppl_provision_title,
            b.suppl_provision_title,
            c.suppl_provision_title,
        );
    }
}

/// The address order is a total order, in the sense vstd's sorting lemmas use.
pub proof fn lemma_addr_le_total_ordering()
    ensures
        total_ordering(addr_leq()),
{
    let leq = addr_leq();
    assert forall|x: AddrView, y: AddrView| #[trigger] leq(x, y) && #[trigger] leq(y, x)
        implies x == y by {
        lemma_addr_lt_trichotomy(x, y);
    }
    assert forall|x: AddrView, y: AddrView, z: AddrView|
        #[trigger] leq(x, y) && #[trigger] leq(y, z) implies leq(x, z) by {
        if x != y && y != z {
            lemma_addr_lt_trans(x, y, z);
        }
    }
    assert forall|x: AddrView, y: AddrView| #[trigger] leq(x, y) || #[trigger] leq(y, x) by {
        lemma_addr_lt_trichotomy(x, y);
    }
}

/// The non-strict order is transitive.
pub proof fn lemma_addr_le_trans(a: AddrView, b: AddrView, c: AddrView)
    requires
        addr_le(a, b),
        addr_le(b, c),
    ensures
        addr_le(a, c),
{
    if a != b && b != c {
        lemma_addr_lt_trans(a, b, c);
    }
}

/// Decides the strict lexicographic order on two strings.
fn str_lt(a: &str, b: &str) -> (r: bool)
    ensures
        r == chars_lt(a@, b@),
{
    let alen = a.unicode_len();
    let blen = b.unicode_len();
    let mut i: usize = 0;
    proof {
        assert(a@.skip(0) =~= a@);
        assert(b@.skip(0) =~= b@);
    }
    loop
        invariant
            i <= alen,
            i <= blen,
            alen == a@.len(),
            blen == b@.len(),
            chars_lt(a@, b@) == chars_lt(a@.skip(i as int), b@.skip(i as int)),
        decreases alen - i,
    {
        if i >= blen {
            return false;
        }
        if i >= alen {
            return true;
        }
        let ca = a.get_char(i);
        let cb = b.get_char(i);
        if ca == cb {
            proof {
                assert(a@.skip(i as int)[0] == a@[i as int]);
                assert(b@.skip(i as int)[0] == b@[i as int]);
                assert(a@.skip(i as int).drop_first() =~= a@.skip(i + 1));
                assert(b@.skip(i as int).drop_first() =~= b@.skip(i + 1));
            }
            i += 1;
        } else {
            proof {
                assert(a@.skip(i as int)[0] == a@[i as int]);
                assert(b@.skip(i as int)[0] == b@[i as int]);
            }
            return (ca as u32) < (cb as u32);
        }
    }
}

fn opt_num_lt_exec(a: &Option<usize>, b: &Option<usize>) -> (r: bool)
    ensures
        r == opt_num_lt(*a, *b),
{
    match (a, b) {
        (None, Some(_)) => true,
        (Some(x), Some(y)) => *x < *y,
        _ => false,
    }
}

fn opt_str_lt_exec(a: &Option<String>, b: &Option<String>) -> (r: bool)
    ensures
        r == opt_chars_lt(opt_view(*a), opt_view(*b)),
{
    match (a, b) {
        (None, Some(_)) => true,
        (Some(x), Some(y)) => str_lt(x.as_str(), y.as_str()),
        _ => false,
    }
}

fn sub_item_lt_exec(a: &Option<(usize, String)>, b: &Option<(usize, String)>) -> (r: bool)
    ensures
        r == sub_item_lt(sub_view(*a), sub_view(*b)),
{
    match (a, b) {
        (None, Some(_)) => true,
        (Some(x), Some(y)) => x.0 < y.0 || (x.0 == y.0 && str_lt(x.1.as_str(), y.1.as_str())),
        _ => false,
    }
}

/// Decides the strict canonical order on two addresses.
pub fn addr_lt_exec(a: &Chapter, b: &Chapter) -> (r: bool)
    ensures
        r == addr_lt(a@, b@),
{
    if !crate::address::opt_num_eq(&a.part, &b.part) {
        opt_num_lt_exec(&a.part, &b.part)
    } else if !crate::address::opt_num_eq(&a.chapter, &b.chapter) {
        opt_num_lt_exec(&a.chapter, &b.chapter)
    } else if !crate::address::opt_num_eq(&a.section, &b.section) {
        opt_num_lt_exec(&a.section, &b.section)
    } else if !crate::address::opt_num_eq(&a.subsection, &b.subsection) {
        opt_num_lt_exec(&a.subsection, &b.subsection)
    } else if !crate::address::opt_num_eq(&a.division, &b.division) {
        opt_num_lt_exec(&a.division, &b.division)
    } else if !(a.article == b.article) {
        str_lt(a.article.as_str(), b.article.as_str())
    } else if !crate::address::opt_string_eq(&a.paragraph, &b.paragraph) {
        opt_str_lt_exec(&a.paragraph, &b.paragraph)
    } else if !crate::address::opt_string_eq(&a.item, &b.item) {
        opt_str_lt_exec(&a.item, &b.item)
    } else if !crate::address::sub_item_eq(&a.sub_item, &b.sub_item) {
        sub_item_lt_exec(&a.sub_item, &b.sub_item)
    } else if !crate::address::opt_string_eq(
        &a.suppl_provision_title,
        &b.suppl_provision_title,
    ) {
        opt_str_lt_exec(&a.suppl_provision_title, &b.suppl_provision_title)
    } else {
        false
    }
}

} // verus!
