//! The mathematical model of weight aggregation: the importance weight of an
//! action, per-issue weight sums, the distinct issue keys of an activity
//! sequence in first-occurrence order, and sums over grid entries.

use vstd::prelude::*;
use crate::activity::Activity;
use crate::activity::ActivityWeight;
use crate::activity::GitAction;

verus! {

/// The importance weight of an action kind. The lookup is total: any kind
/// outside the three explicitly weighted ones falls through to weight 1.
pub open spec fn spec_weight(a: GitAction) -> int {
    match a {
        GitAction::Created => 10,
        GitAction::PushedNew => 7,
        GitAction::PushedTo => 5,
        _ => 1,
    }
}

/// The grand total weight of a sequence of activities.
pub open spec fn sum_weights(s: Seq<Activity>) -> int
    decreases s.len(),
{
    if s.len() == 0 {
        0
    } else {
        sum_weights(s.drop_last()) + spec_weight(s.last().action)
    }
}

/// The distinct issue keys of `s`, in order of first occurrence.
pub open spec fn issue_keys_of(s: Seq<Activity>) -> Seq<Seq<char>>
    decreases s.len(),
{
    if s.len() == 0 {
        Seq::empty()
    } else {
        let prev = issue_keys_of(s.drop_last());
        if prev.contains(s.last().issue_name@) {
            prev
        } else {
            prev.push(s.last().issue_name@)
        }
    }
}

/// The accumulated weight of issue `k` over the activities of `s`.
pub open spec fn issue_weight(s: Seq<Activity>, k: Seq<char>) -> int
    decreases s.len(),
{
    if s.len() == 0 {
        0
    } else {
        issue_weight(s.drop_last(), k) + if s.last().issue_name@ == k {
            spec_weight(s.last().action)
        } else {
            0
        }
    }
}

/// The sum of the per-issue weights of `s` over the keys of `keys`.
pub open spec fn sum_issue_weights(s: Seq<Activity>, keys: Seq<Seq<char>>) -> int
    decreases keys.len(),
{
    if keys.len() == 0 {
        0
    } else {
        sum_issue_weights(s, keys.drop_last()) + issue_weight(s, keys.last())
    }
}

/// The sum of the allocated durations of grid entries, in seconds.
pub open spec fn sum_durations(items: Seq<ActivityWeight>) -> int
    decreases items.len(),
{
    if items.len() == 0 {
        0
    } else {
        sum_durations(items.drop_last()) + items.last().duration.seconds
    }
}

/// Extending a prefix of `s` by its next activity adds that activity's
/// weight to the total.
pub proof fn lemma_sum_weights_take_step(s: Seq<Activity>, i: int)
    requires
        0 <= i < s.len(),
    ensures
        sum_weights(s.take(i + 1)) == sum_weights(s.take(i)) + spec_weight(s[i].action),
{
    assert(s.take(i + 1).drop_last() =~= s.take(i));
    assert(s.take(i + 1).last() == s[i]);
}

/// The total weight of a prefix never exceeds the total weight of the whole,
/// and neither is negative.
pub proof fn lemma_sum_weights_prefix_le(s: Seq<Activity>, i: int)
    requires
        0 <= i <= s.len(),
    ensures
        0 <= sum_weights(s.take(i)) <= sum_weights(s),
    decreases s.len() - i,
{
    if i == s.len() {
        assert(s.take(i) =~= s);
        lemma_sum_weights_nonneg(s);
    } else {
        lemma_sum_weights_take_step(s, i);
        lemma_sum_weights_nonneg(s.take(i));
        lemma_sum_weights_prefix_le(s, i + 1);
    }
}

/// A total weight is never negative.
pub proof fn lemma_sum_weights_nonneg(s: Seq<Activity>)
    ensures
        0 <= sum_weights(s),
    decreases s.len(),
{
    if s.len() > 0 {
        lemma_sum_weights_nonneg(s.drop_last());
    }
}

/// A per-issue weight lies between 0 and the grand total.
pub proof fn lemma_issue_weight_bounds(s: Seq<Activity>, k: Seq<char>)
    ensures
        0 <= issue_weight(s, k) <= sum_weights(s),
    decreases s.len(),
{
    if s.len() > 0 {
        lemma_issue_weight_bounds(s.drop_last(), k);
    }
}

/// A key that occurs among the distinct keys of `s` has accumulated at
/// least one activity's weight.
pub proof fn lemma_issue_weight_present(s: Seq<Activity>, k: Seq<char>)
    requires
        issue_keys_of(s).contains(k),
    ensures
        1 <= issue_weight(s, k),
    decreases s.len(),
{
    let b = s.drop_last();
    let prev = issue_keys_of(b);
    if s.last().issue_name@ == k {
        lemma_issue_weight_bounds(b, k);
    } else {
        if !prev.contains(k) {
            // Then issue_keys_of(s) is prev or prev.push of another key,
            // and neither contains k.
            if !prev.contains(s.last().issue_name@) {
                let j = choose|j: int|
                    0 <= j < issue_keys_of(s).len() && issue_keys_of(s)[j] == k;
                assert(prev.push(s.last().issue_name@)[j] == k);
                assert(false);
            } else {
                assert(false);
            }
        }
        lemma_issue_weight_present(b, k);
    }
}

/// A key that does not occur among the distinct keys of `s` has weight 0.
pub proof fn lemma_issue_weight_absent(s: Seq<Activity>, k: Seq<char>)
    requires
        !issue_keys_of(s).contains(k),
    ensures
        issue_weight(s, k) == 0,
    decreases s.len(),
{
    if s.len() > 0 {
        let b = s.drop_last();
        let prev = issue_keys_of(b);
        lemma_issue_keys_contains_step(s);
        assert(!prev.contains(k)) by {
            if prev.contains(k) {
                assert(issue_keys_of(s).contains(k));
            }
        }
        assert(s.last().issue_name@ != k) by {
            if s.last().issue_name@ == k {
                assert(issue_keys_of(s).contains(k));
            }
        }
        lemma_issue_weight_absent(b, k);
    }
}

/// The distinct keys of `s` contain every key of its front part and the key
/// of its last activity.
pub proof fn lemma_issue_keys_contains_step(s: Seq<Activity>)
    requires
        s.len() > 0,
    ensures
        issue_keys_of(s).contains(s.last().issue_name@),
        forall|k: Seq<char>|
            issue_keys_of(s.drop_last()).contains(k) ==> #[trigger] issue_keys_of(s).contains(k),
{
    let b = s.drop_last();
    let prev = issue_keys_of(b);
    let kx = s.last().issue_name@;
    if !prev.contains(kx) {
        assert(prev.push(kx)[prev.len() as int] == kx);
        assert(issue_keys_of(s).contains(kx));
    }
    assert forall|k: Seq<char>| prev.contains(k) implies #[trigger] issue_keys_of(s).contains(
        k,
    ) by {
        let j = choose|j: int| 0 <= j < prev.len() && prev[j] == k;
        if !prev.contains(kx) {
            assert(prev.push(kx)[j] == k);
        }
    }
}

/// The distinct keys of `s` hold no key twice.
pub proof fn lemma_issue_keys_distinct(s: Seq<Activity>)
    ensures
        forall|a: int, b: int|
            0 <= a < b < issue_keys_of(s).len() ==> issue_keys_of(s)[a] != issue_keys_of(s)[b],
    decreases s.len(),
{
    if s.len() > 0 {
        let bs = s.drop_last();
        let prev = issue_keys_of(bs);
        let kx = s.last().issue_name@;
        lemma_issue_keys_distinct(bs);
        if !prev.contains(kx) {
            assert forall|a: int, b: int|
                0 <= a < b < issue_keys_of(s).len() implies issue_keys_of(s)[a]
                != issue_keys_of(s)[b] by {
                if b == prev.len() as int {
                    assert(prev[a] != kx) by {
                        if prev[a] == kx {
                            assert(prev.contains(kx));
                        }
                    }
                }
            }
        }
    }
}

/// Appending one activity to `s` raises the summed per-issue weights over a
/// duplicate-free key sequence by that activity's weight if its key is
/// listed, and not at all otherwise.
pub proof fn lemma_sum_issue_weights_push(s: Seq<Activity>, x: Activity, keys: Seq<Seq<char>>)
    requires
        forall|a: int, b: int| 0 <= a < b < keys.len() ==> keys[a] != keys[b],
    ensures
        sum_issue_weights(s.push(x), keys) == sum_issue_weights(s, keys) + if keys.contains(
            x.issue_name@,
        ) {
            spec_weight(x.action)
        } else {
            0
        },
    decreases keys.len(),
{
    if keys.len() > 0 {
        let front = keys.drop_last();
        let lastk = keys.last();
        lemma_sum_issue_weights_push(s, x, front);
        assert(s.push(x).drop_last() =~= s);
        assert(s.push(x).last() == x);
        if lastk == x.issue_name@ {
            assert(!front.contains(x.issue_name@)) by {
                if front.contains(x.issue_name@) {
                    let j = choose|j: int|
                        0 <= j < front.len() && front[j] == x.issue_name@;
                    assert(keys[j] == keys[keys.len() - 1]);
                }
            }
            assert(keys.contains(x.issue_name@)) by {
                assert(keys[keys.len() - 1] == x.issue_name@);
            }
        } else {
            assert(front.contains(x.issue_name@) <==> keys.contains(x.issue_name@)) by {
                if front.contains(x.issue_name@) {
                    let j = choose|j: int|
                        0 <= j < front.len() && front[j] == x.issue_name@;
                    assert(keys[j] == x.issue_name@);
                }
                if keys.contains(x.issue_name@) {
                    let j = choose|j: int|
                        0 <= j < keys.len() && keys[j] == x.issue_name@;
                    assert(j < keys.len() - 1);
                    assert(front[j] == x.issue_name@);
                }
            }
        }
    }
}

/// The per-issue weights over the distinct keys of `s` add up to the grand
/// total weight: aggregation loses nothing and counts nothing twice.
pub proof fn lemma_issue_weights_partition(s: Seq<Activity>)
    ensures
        sum_issue_weights(s, issue_keys_of(s)) == sum_weights(s),
    decreases s.len(),
{
    if s.len() > 0 {
        let b = s.drop_last();
        let x = s.last();
        let prev = issue_keys_of(b);
        let kx = x.issue_name@;
        lemma_issue_weights_partition(b);
        lemma_issue_keys_distinct(b);
        assert(b.push(x) =~= s);
        lemma_sum_issue_weights_push(b, x, prev);
        if prev.contains(kx) {
            assert(issue_keys_of(s) == prev);
        } else {
            assert(issue_keys_of(s) == prev.push(kx));
            assert(issue_keys_of(s).drop_last() =~= prev);
            assert(issue_keys_of(s).last() == kx);
            lemma_issue_weight_absent(b, kx);
            assert(s.drop_last() =~= b);
            assert(issue_weight(s, kx) == spec_weight(x.action));
        }
    }
}

} // verus!
