use vstd::prelude::*;
use crate::text::{decimal, decimal_string, digit_of, same_text};
use crate::types::texts_model;

verus! {

/// The name `base` with the numeral of `k` behind it.
pub open spec fn numbered(base: Seq<char>, k: nat) -> Seq<char> {
    base + decimal(k)
}

/// The first number from `k` on whose numbered name is not in `used`,
/// trying `budget` numbers at most; `k + budget` where all of them are
/// taken.
pub open spec fn free_number(used: Seq<Seq<char>>, base: Seq<char>, k: nat, budget: nat) -> nat
    decreases budget,
{
    if budget == 0 || !used.contains(numbered(base, k)) {
        k
    } else {
        free_number(used, base, k + 1, (budget - 1) as nat)
    }
}

/// A name that is not in `used`: `base` itself where it is free, and
/// otherwise `base` with the least number from 2 on that makes it free.
pub open spec fn fresh_name(used: Seq<Seq<char>>, base: Seq<char>) -> Seq<char> {
    if !used.contains(base) {
        base
    } else {
        numbered(base, free_number(used, base, 2, used.len()))
    }
}

/// Whether `name` is among `used`.
pub fn contains_text(used: &Vec<String>, name: &str) -> (r: bool)
    ensures
        r == texts_model(used@).contains(name@),
{
    let ghost names = texts_model(used@);
    let mut i: usize = 0;
    while i < used.len()
        invariant
            i <= used@.len(),
            names == texts_model(used@),
            !names.subrange(0, i as int).contains(name@),
        decreases used@.len() - i,
    {
        if same_text(used[i].as_str(), name) {
            assert(names[i as int] == name@);
            return true;
        }
        assert(names.subrange(0, i + 1) =~= names.subrange(0, i as int).push(names[i as int]));
        i += 1;
    }
    assert(names.subrange(0, names.len() as int) =~= names);
    false
}

/// The name `base` with the numeral of `k` behind it.
pub fn numbered_name(base: &str, k: u128) -> (r: String)
    ensures
        r@ == numbered(base@, k as nat),
{
    let numeral = decimal_string(k);
    String::from_str(base).concat(numeral.as_str())
}

/// Picks a name that is not in `used`, as close to `base` as can be.
pub fn fresh(used: &Vec<String>, base: &str) -> (r: String)
    ensures
        r@ == fresh_name(texts_model(used@), base@),
{
    if !contains_text(used, base) {
        return String::from_str(base);
    }
    let ghost names = texts_model(used@);
    let mut k: u128 = 2;
    let mut budget: usize = used.len();
    loop
        invariant
            names == texts_model(used@),
            names.contains(base@),
            budget <= used@.len() <= usize::MAX,
            k == 2 + (used@.len() - budget),
            free_number(names, base@, 2, used@.len() as nat) == free_number(
                names,
                base@,
                k as nat,
                budget as nat,
            ),
        decreases budget,
    {
        let candidate = numbered_name(base, k);
        if budget == 0 || !contains_text(used, candidate.as_str()) {
            return candidate;
        }
        k += 1;
        budget -= 1;
    }
}

/// Every numeral has a digit.
pub proof fn lemma_decimal_nonempty(n: nat)
    ensures
        decimal(n).len() >= 1,
    decreases n,
{
    if n >= 10 {
        lemma_decimal_nonempty(n / 10);
    }
}

/// Two numbers with the same numeral are the same number.
pub proof fn lemma_decimal_injective(a: nat, b: nat)
    requires
        decimal(a) == decimal(b),
    ensures
        a == b,
    decreases a,
{
    lemma_decimal_nonempty(a / 10);
    lemma_decimal_nonempty(b / 10);
    if a < 10 && b < 10 {
        assert(decimal(a)[0] == digit_of(a));
        assert(decimal(b)[0] == digit_of(b));
    } else if a >= 10 && b >= 10 {
        let x = decimal(a / 10);
        let y = decimal(b / 10);
        assert(decimal(a) == x.push(digit_of(a % 10)));
        assert(decimal(b) == y.push(digit_of(b % 10)));
        assert(x.push(digit_of(a % 10)).drop_last() =~= x);
        assert(y.push(digit_of(b % 10)).drop_last() =~= y);
        assert(x.push(digit_of(a % 10)).last() == digit_of(a % 10));
        assert(y.push(digit_of(b % 10)).last() == digit_of(b % 10));
        lemma_decimal_injective(a / 10, b / 10);
    } else if a < 10 {
        assert(decimal(a).len() == 1);
        assert(decimal(b).len() == decimal(b / 10).len() + 1);
    } else {
        assert(decimal(b).len() == 1);
        assert(decimal(a).len() == decimal(a / 10).len() + 1);
    }
}

/// Two numbers that give `base` the same numbered name are the same.
pub proof fn lemma_numbered_injective(base: Seq<char>, a: nat, b: nat)
    requires
        numbered(base, a) == numbered(base, b),
    ensures
        a == b,
{
    let x = decimal(a);
    let y = decimal(b);
    assert((base + x).subrange(base.len() as int, (base + x).len() as int) =~= x);
    assert((base + y).subrange(base.len() as int, (base + y).len() as int) =~= y);
    lemma_decimal_injective(a, b);
}

/// The candidates for a free name: `base` itself, then `base2`, `base3`
/// and so on.
pub open spec fn candidate(base: Seq<char>, i: nat) -> Seq<char> {
    if i == 0 {
        base
    } else {
        numbered(base, i + 1)
    }
}

/// No two candidates are the same name.
pub proof fn lemma_candidates_differ(base: Seq<char>, i: nat, j: nat)
    requires
        candidate(base, i) == candidate(base, j),
    ensures
        i == j,
{
    lemma_decimal_nonempty(i + 1);
    lemma_decimal_nonempty(j + 1);
    if i == 0 || j == 0 {
        assert(candidate(base, i).len() == candidate(base, j).len());
    } else {
        lemma_numbered_injective(base, i + 1, j + 1);
    }
}

/// A list that holds the first `count` candidates has at least `count`
/// entries.
pub proof fn lemma_candidates_fill(used: Seq<Seq<char>>, base: Seq<char>, count: nat)
    requires
        forall|i: nat| i < count ==> used.contains(#[trigger] candidate(base, i)),
    ensures
        used.len() >= count,
    decreases count,
{
    if count > 0 {
        let last = candidate(base, (count - 1) as nat);
        assert(used.contains(last));
        let at = choose|at: int| 0 <= at < used.len() && used[at] == last;
        let rest = used.remove(at);
        assert forall|i: nat| i < count - 1 implies rest.contains(
            #[trigger] candidate(base, i),
        ) by {
            let c = candidate(base, i);
            assert(used.contains(c));
            let p = choose|p: int| 0 <= p < used.len() && used[p] == c;
            if p == at {
                lemma_candidates_differ(base, i, (count - 1) as nat);
            }
            if p < at {
                assert(rest[p] == c);
            } else {
                assert(rest[p - 1] == c);
            }
        }
        lemma_candidates_fill(rest, base, (count - 1) as nat);
    }
}

/// What the search for a free number finds: a number whose name is free,
/// or, with every number it tried taken, the number after them.
pub proof fn lemma_free_number(used: Seq<Seq<char>>, base: Seq<char>, k: nat, budget: nat)
    ensures
        k <= free_number(used, base, k, budget) <= k + budget,
        forall|j: nat|
            k <= j < free_number(used, base, k, budget) ==> used.contains(
                #[trigger] numbered(base, j),
            ),
        free_number(used, base, k, budget) < k + budget ==> !used.contains(
            numbered(base, free_number(used, base, k, budget)),
        ),
    decreases budget,
{
    if budget == 0 || !used.contains(numbered(base, k)) {
    } else {
        lemma_free_number(used, base, k + 1, (budget - 1) as nat);
    }
}

/// A fresh name is new: it is not among the names in use.
pub proof fn lemma_fresh_is_new(used: Seq<Seq<char>>, base: Seq<char>)
    ensures
        !used.contains(fresh_name(used, base)),
{
    if used.contains(base) {
        let found = free_number(used, base, 2, used.len());
        lemma_free_number(used, base, 2, used.len());
        if found == 2 + used.len() {
            assert forall|i: nat| i < used.len() + 1 implies used.contains(
                #[trigger] candidate(base, i),
            ) by {
                if i > 0 {
                    assert(used.contains(numbered(base, i + 1)));
                }
            }
            lemma_candidates_fill(used, base, used.len() + 1);
        }
    }
}

} // verus!
