//! Ordered sequences without repetition: what is seen first stays first.

use crate::text::same_text;
use vstd::prelude::*;

verus! {

/// `acc` extended by the items of `more` that it does not hold yet, each at its
/// first occurrence, in the order in which they come.
pub open spec fn merged<T>(acc: Seq<T>, more: Seq<T>) -> Seq<T>
    decreases more.len(),
{
    if more.len() == 0 {
        acc
    } else {
        let head = merged(acc, more.drop_last());
        if head.contains(more.last()) {
            head
        } else {
            head.push(more.last())
        }
    }
}

/// `s` with every repetition of an item removed: the first occurrences, in order.
pub open spec fn deduped<T>(s: Seq<T>) -> Seq<T> {
    merged(Seq::empty(), s)
}

/// `x` occurs in `s` at `at`, and nowhere before.
pub open spec fn first_at<T>(s: Seq<T>, x: T, at: int) -> bool {
    &&& 0 <= at < s.len()
    &&& s[at] == x
    &&& forall|k: int| 0 <= k < at ==> s[k] != x
}

/// Merging keeps what was there, in place.
pub proof fn lemma_merged_extends<T>(acc: Seq<T>, more: Seq<T>)
    ensures
        acc.is_prefix_of(merged(acc, more)),
    decreases more.len(),
{
    if more.len() > 0 {
        lemma_merged_extends(acc, more.drop_last());
    }
}

/// Merging item by item is merging the whole.
pub proof fn lemma_merged_concat<T>(acc: Seq<T>, a: Seq<T>, b: Seq<T>)
    ensures
        merged(acc, a + b) == merged(merged(acc, a), b),
    decreases b.len(),
{
    if b.len() == 0 {
        assert(a + b =~= a);
    } else {
        assert((a + b).drop_last() =~= a + b.drop_last());
        assert((a + b).last() == b.last());
        lemma_merged_concat(acc, a, b.drop_last());
    }
}

/// A merge holds exactly what either side held.
pub proof fn lemma_merged_contains<T>(acc: Seq<T>, more: Seq<T>, x: T)
    ensures
        merged(acc, more).contains(x) <==> (acc.contains(x) || more.contains(x)),
    decreases more.len(),
{
    if more.len() > 0 {
        let head = merged(acc, more.drop_last());
        lemma_merged_contains(acc, more.drop_last(), x);
        if more.contains(x) {
            let i = choose|i: int| 0 <= i < more.len() && more[i] == x;
            if i < more.len() - 1 {
                assert(more.drop_last()[i] == x);
            }
        }
        if more.drop_last().contains(x) {
            let i = choose|i: int| 0 <= i < more.drop_last().len() && more.drop_last()[i] == x;
            assert(more[i] == x);
        }
        if !head.contains(more.last()) {
            let out = head.push(more.last());
            if head.contains(x) {
                let i = choose|i: int| 0 <= i < head.len() && head[i] == x;
                assert(out[i] == x);
            }
            assert(out[out.len() - 1] == more.last());
            assert(more[more.len() - 1] == more.last());
        } else {
            assert(more[more.len() - 1] == more.last());
        }
    }
}

/// A merge into a sequence without repetition has none.
pub proof fn lemma_merged_no_duplicates<T>(acc: Seq<T>, more: Seq<T>)
    requires
        acc.no_duplicates(),
    ensures
        merged(acc, more).no_duplicates(),
    decreases more.len(),
{
    if more.len() > 0 {
        lemma_merged_no_duplicates(acc, more.drop_last());
    }
}

/// No item occurs twice in a deduplicated sequence.
pub proof fn lemma_deduped_no_duplicates<T>(s: Seq<T>)
    ensures
        deduped(s).no_duplicates(),
{
    lemma_merged_no_duplicates(Seq::<T>::empty(), s);
}

/// Deduplication neither loses an item nor invents one.
pub proof fn lemma_deduped_contains<T>(s: Seq<T>, x: T)
    ensures
        deduped(s).contains(x) <==> s.contains(x),
{
    lemma_merged_contains(Seq::<T>::empty(), s, x);
}

/// Every item of a deduplicated sequence stands for its first occurrence in the
/// input, and these occurrences come in the same order as the items.
pub proof fn lemma_deduped_first_seen_order<T>(s: Seq<T>, i: int, j: int) -> (at: (int, int))
    requires
        0 <= i < j < deduped(s).len(),
    ensures
        first_at(s, deduped(s)[i], at.0),
        first_at(s, deduped(s)[j], at.1),
        at.0 < at.1,
    decreases s.len(),
{
    let out = deduped(s);
    let head = deduped(s.drop_last());
    assert(s.len() > 0);
    if head.contains(s.last()) || j < head.len() {
        let at = lemma_deduped_first_seen_order(s.drop_last(), i, j);
        assert(s.drop_last()[at.0] == s[at.0]);
        assert(s.drop_last()[at.1] == s[at.1]);
        assert forall|k: int| 0 <= k < at.1 implies s[k] != out[j] by {
            assert(s.drop_last()[k] == s[k]);
        }
        assert forall|k: int| 0 <= k < at.0 implies s[k] != out[i] by {
            assert(s.drop_last()[k] == s[k]);
        }
        at
    } else {
        // the last input item is new, and it is the item at `j`
        assert(out == head.push(s.last()));
        assert(j == head.len());
        let a = lemma_first_occurrence(s.drop_last(), i);
        assert(s.drop_last()[a] == s[a]);
        assert forall|k: int| 0 <= k < a implies s[k] != out[i] by {
            assert(s.drop_last()[k] == s[k]);
        }
        let b = s.len() - 1;
        assert forall|k: int| 0 <= k < b implies s[k] != out[j] by {
            assert(s.drop_last()[k] == s[k]);
            lemma_deduped_contains(s.drop_last(), s.last());
        }
        (a, b)
    }
}

/// Every item of a deduplicated sequence has a first occurrence in the input.
pub proof fn lemma_first_occurrence<T>(s: Seq<T>, i: int) -> (at: int)
    requires
        0 <= i < deduped(s).len(),
    ensures
        first_at(s, deduped(s)[i], at),
    decreases s.len(),
{
    let out = deduped(s);
    let head = deduped(s.drop_last());
    assert(s.len() > 0);
    if i < head.len() {
        let at = lemma_first_occurrence(s.drop_last(), i);
        assert(s.drop_last()[at] == s[at]);
        assert forall|k: int| 0 <= k < at implies s[k] != out[i] by {
            assert(s.drop_last()[k] == s[k]);
        }
        at
    } else {
        let at = s.len() - 1;
        assert forall|k: int| 0 <= k < at implies s[k] != out[i] by {
            assert(s.drop_last()[k] == s[k]);
            lemma_deduped_contains(s.drop_last(), s.last());
        }
        at
    }
}

/// Deduplicating twice changes nothing more.
pub proof fn lemma_deduped_idempotent<T>(s: Seq<T>)
    ensures
        deduped(deduped(s)) == deduped(s),
{
    lemma_deduped_no_duplicates(s);
    lemma_unique_is_fixed(deduped(s));
}

/// A sequence without repetition is its own deduplication.
pub proof fn lemma_unique_is_fixed<T>(s: Seq<T>)
    requires
        s.no_duplicates(),
    ensures
        deduped(s) == s,
    decreases s.len(),
{
    if s.len() > 0 {
        lemma_unique_is_fixed(s.drop_last());
        if s.drop_last().contains(s.last()) {
            let i = choose|i: int| 0 <= i < s.drop_last().len() && s.drop_last()[i] == s.last();
            assert(s[i] == s[s.len() - 1]);
        }
        assert(s.drop_last().push(s.last()) =~= s);
    } else {
        assert(deduped(s) =~= s);
    }
}

/// Whether `items` holds a string with the characters of `wanted`.
pub fn holds(items: &Vec<String>, wanted: &str) -> (found: bool)
    ensures
        found == items.deep_view().contains(wanted@),
{
    let mut i: usize = 0;
    while i < items.len()
        invariant
            i <= items.len(),
            forall|k: int| 0 <= k < i ==> items.deep_view()[k] != wanted@,
        decreases items.len() - i,
    {
        assert(items.deep_view()[i as int] == items@[i as int].deep_view());
        assert(items@[i as int].deep_view() == items@[i as int]@);
        if same_text(items[i].as_str(), wanted) {
            return true;
        }
        i = i + 1;
    }
    false
}

/// Appends to `acc` the strings of `more` that it does not hold yet.
pub fn merge_into(acc: &mut Vec<String>, more: &Vec<String>)
    ensures
        final(acc).deep_view() == merged(old(acc).deep_view(), more.deep_view()),
{
    let mut i: usize = 0;
    assert(more.deep_view().take(0) =~= Seq::empty());
    while i < more.len()
        invariant
            i <= more.len(),
            acc.deep_view() == merged(old(acc).deep_view(), more.deep_view().take(i as int)),
        decreases more.len() - i,
    {
        let ghost before = acc.deep_view();
        let ghost upto = more.deep_view().take(i as int + 1);
        assert(upto.drop_last() =~= more.deep_view().take(i as int));
        assert(upto.last() == more[i as int]@);
        if !holds(acc, more[i].as_str()) {
            acc.push(more[i].clone());
            assert(acc.deep_view() =~= before.push(more[i as int]@));
        }
        i = i + 1;
    }
    assert(more.deep_view().take(more.len() as int) =~= more.deep_view());
}

/// The strings of `items` without repetition, each where it first occurred.
pub fn dedupe(items: Vec<String>) -> (unique: Vec<String>)
    ensures
        unique.deep_view() == deduped(items.deep_view()),
{
    let mut unique: Vec<String> = Vec::new();
    assert(unique.deep_view() =~= Seq::empty());
    merge_into(&mut unique, &items);
    unique
}

} // verus!
