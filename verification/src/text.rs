//! Comparing strings by their characters.
use vstd::prelude::*;
use vstd::string::StrSliceExecFns;

verus! {

/// `a` and `b` agree on their first `n` characters.
pub open spec fn agree_upto(a: Seq<char>, b: Seq<char>, n: int) -> bool {
    forall|j: int| 0 <= j < n ==> a[j] == b[j]
}

/// `i` is where `a` first falls below `b`: the two agree before `i`, and there
/// `a` ends while `b` goes on, or `a`'s character has the smaller code point.
pub open spec fn below_at(a: Seq<char>, b: Seq<char>, i: int) -> bool {
    &&& 0 <= i <= a.len()
    &&& i <= b.len()
    &&& agree_upto(a, b, i)
    &&& {
        ||| (i == a.len() && i < b.len())
        ||| (i < a.len() && i < b.len() && (a[i] as u32) < (b[i] as u32))
    }
}

/// Lexicographic order on strings by code point, the order in which a
/// `BTreeMap<String, _>` keeps its keys (UTF-8 byte order agrees with code
/// point order).
pub open spec fn str_lt(a: Seq<char>, b: Seq<char>) -> bool {
    exists|i: int| below_at(a, b, i)
}

/// The result of comparing two strings.
#[derive(PartialEq, Eq, Structural, Clone, Copy, Debug)]
pub enum StrOrder {
    Less,
    Equal,
    Greater,
}

/// No string is below itself.
pub proof fn lemma_str_lt_irreflexive(a: Seq<char>)
    ensures
        !str_lt(a, a),
{
    if str_lt(a, a) {
        let i = choose|i: int| below_at(a, a, i);
        assert(below_at(a, a, i));
    }
}

/// The order is transitive.
pub proof fn lemma_str_lt_transitive(a: Seq<char>, b: Seq<char>, c: Seq<char>)
    requires
        str_lt(a, b),
        str_lt(b, c),
    ensures
        str_lt(a, c),
{
    let i = choose|i: int| below_at(a, b, i);
    let j = choose|j: int| below_at(b, c, j);
    if i < j {
        assert(i < b.len());
        assert(b[i] == c[i]);
        assert(below_at(a, c, i));
    } else if j < i {
        assert(j < a.len());
        assert(a[j] == b[j]);
        assert(below_at(a, c, j));
    } else {
        assert(below_at(a, c, i));
    }
}

/// The order is asymmetric.
pub proof fn lemma_str_lt_asymmetric(a: Seq<char>, b: Seq<char>)
    requires
        str_lt(a, b),
    ensures
        !str_lt(b, a),
{
    if str_lt(b, a) {
        lemma_str_lt_transitive(a, b, a);
        lemma_str_lt_irreflexive(a);
    }
}

/// Compares two strings character by character.
pub fn compare_str(a: &str, b: &str) -> (r: StrOrder)
    ensures
        (r == StrOrder::Less) <==> str_lt(a@, b@),
        (r == StrOrder::Equal) <==> a@ == b@,
        (r == StrOrder::Greater) <==> str_lt(b@, a@),
{
    let la = a.unicode_len();
    let lb = b.unicode_len();
    let mut i: usize = 0;
    while i < la && i < lb
        invariant
            la == a@.len(),
            lb == b@.len(),
            i <= la,
            i <= lb,
            agree_upto(a@, b@, i as int),
        decreases la - i,
    {
        let ca = a.get_char(i);
        let cb = b.get_char(i);
        if ca != cb {
            proof {
                lemma_str_lt_irreflexive(a@);
            }
            if (ca as u32) < (cb as u32) {
                assert(below_at(a@, b@, i as int));
                proof {
                    lemma_str_lt_asymmetric(a@, b@);
                }
                return StrOrder::Less;
            } else {
                assert((cb as u32) != (ca as u32));
                assert(below_at(b@, a@, i as int));
                proof {
                    lemma_str_lt_asymmetric(b@, a@);
                }
                return StrOrder::Greater;
            }
        }
        i = i + 1;
    }
    proof {
        lemma_str_lt_irreflexive(a@);
    }
    if la < lb {
        assert(below_at(a@, b@, i as int));
        proof {
            lemma_str_lt_asymmetric(a@, b@);
        }
        StrOrder::Less
    } else if lb < la {
        assert(agree_upto(b@, a@, i as int));
        assert(below_at(b@, a@, i as int));
        proof {
            lemma_str_lt_asymmetric(b@, a@);
        }
        StrOrder::Greater
    } else {
        assert(a@ =~= b@);
        StrOrder::Equal
    }
}

/// Whether two strings hold the same characters.
pub fn str_eq(a: &str, b: &str) -> (r: bool)
    ensures
        r == (a@ == b@),
{
    match compare_str(a, b) {
        StrOrder::Equal => true,
        _ => false,
    }
}

} // verus!
