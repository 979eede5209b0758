//! The search predicate: does a text node contain a search term as a literal,
//! case-sensitive substring?

use vstd::prelude::*;

verus! {

/// The term occurs in the text starting at position `i`.
pub open spec fn match_at(text: Seq<char>, term: Seq<char>, i: int) -> bool {
    0 <= i && i + term.len() <= text.len() && text.subrange(i, i + term.len()) == term
}

/// The text contains the term as a literal substring.
pub open spec fn contains_term(text: Seq<char>, term: Seq<char>) -> bool {
    exists|i: int| match_at(text, term, i)
}

/// The text contains at least one of the terms.
pub open spec fn contains_any(text: Seq<char>, terms: Seq<Seq<char>>) -> bool {
    exists|k: int| 0 <= k < terms.len() && contains_term(text, #[trigger] terms[k])
}

/// The characters of a string, as an indexable vector.
fn chars_of(s: &str) -> (r: Vec<char>)
    ensures
        r@ == s@,
{
    let n = s.unicode_len();
    let mut r: Vec<char> = Vec::new();
    let mut i: usize = 0;
    while i < n
        invariant
            i <= n,
            n == s@.len(),
            r@ == s@.take(i as int),
        decreases n - i,
    {
        let c = s.get_char(i);
        r.push(c);
        proof {
            assert(r@ =~= s@.take(i + 1));
        }
        i += 1;
    }
    proof {
        assert(s@.take(n as int) =~= s@);
    }
    r
}

/// Decides whether the term occurs in the text as a literal substring.
pub fn str_contains_term(text: &str, term: &str) -> (r: bool)
    ensures
        r == contains_term(text@, term@),
{
    let t = chars_of(text);
    let p = chars_of(term);
    if p.len() > t.len() {
        proof {
            assert forall|i: int| !match_at(text@, term@, i) by {}
        }
        return false;
    }
    let last = t.len() - p.len();
    let mut i: usize = 0;
    loop
        invariant
            p.len() <= t.len(),
            last == t.len() - p.len(),
            t@ == text@,
            p@ == term@,
            i <= last,
            forall|x: int| 0 <= x < i ==> !match_at(text@, term@, x),
        ensures
            forall|x: int| 0 <= x <= last ==> !match_at(text@, term@, x),
        decreases last - i,
    {
        let mut j: usize = 0;
        let mut hit = true;
        while j < p.len()
            invariant
                p.len() <= t.len(),
                i + p.len() <= t.len(),
                t@ == text@,
                p@ == term@,
                j <= p.len(),
                hit ==> forall|y: int| 0 <= y < j ==> text@[i + y] == term@[y],
                !hit ==> !match_at(text@, term@, i as int),
            decreases p.len() - j,
        {
            if t[i + j] != p[j] {
                proof {
                    if match_at(text@, term@, i as int) {
                        assert(text@.subrange(i as int, i + term@.len())[j as int] == term@[
                            j as int
                        ]);
                    }
                }
                hit = false;
                j = p.len();
            } else {
                j += 1;
            }
        }
        if hit {
            proof {
                assert(text@.subrange(i as int, i + term@.len()) =~= term@);
                assert(match_at(text@, term@, i as int));
            }
            return true;
        }
        if i == last {
            break;
        }
        i += 1;
    }
    proof {
        assert forall|x: int| !match_at(text@, term@, x) by {
            if 0 <= x <= last {
                assert(!match_at(text@, term@, x));
            }
        }
    }
    false
}

/// Decides whether the text contains at least one of the terms.
pub fn str_contains_any(text: &str, terms: &Vec<String>) -> (r: bool)
    ensures
        r == contains_any(text@, terms.deep_view()),
{
    let mut k: usize = 0;
    while k < terms.len()
        invariant
            k <= terms.len(),
            forall|x: int| 0 <= x < k ==> !contains_term(text@, #[trigger] terms.deep_view()[x]),
        decreases terms.len() - k,
    {
        if str_contains_term(text, terms[k].as_str()) {
            proof {
                assert(terms.deep_view()[k as int] == terms[k as int]@);
            }
            return true;
        }
        proof {
            assert(terms.deep_view()[k as int] == terms[k as int]@);
        }
        k += 1;
    }
    false
}

} // verus!
