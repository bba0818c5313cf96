//! Activity records, issue-key extraction, scoring, and the weight grid.
//!
//! A raw activity record carries an action kind, optional free-text fields
//! and an optional timestamp. Extraction recovers issue keys from the
//! concatenated text fields; each key yields one activity. Aggregation sums
//! the action weights per issue and distributes a total duration across the
//! issues proportionally to their weight, by multiply-then-divide integer
//! arithmetic on seconds.

use vstd::prelude::*;
use vstd::string::StrSliceExecFns;
use vstd::string::StringExecFns;
use vstd::arithmetic::div_mod::lemma_fundamental_div_mod;
use vstd::arithmetic::div_mod::lemma_mod_division_less_than_divisor;
use vstd::arithmetic::mul::lemma_mul_inequality;
use vstd::arithmetic::mul::lemma_mul_inequality_converse;
use vstd::arithmetic::mul::lemma_mul_is_commutative;
use vstd::arithmetic::mul::lemma_mul_is_distributive_add;
use vstd::arithmetic::mul::lemma_mul_is_distributive_sub;
use vstd::arithmetic::mul::lemma_mul_nonnegative;
use vstd::arithmetic::mul::lemma_mul_strict_inequality_converse;
use crate::pattern::spec_issue_keys;
use crate::pattern::find_issue_keys;
use crate::time::Duration;
use crate::weight::issue_keys_of;
use crate::weight::issue_weight;
use crate::weight::spec_weight;
use crate::weight::sum_weights;
use crate::weight::sum_issue_weights;
use crate::weight::sum_durations;
use crate::weight::lemma_issue_keys_distinct;
use crate::weight::lemma_issue_weight_bounds;
use crate::weight::lemma_issue_weight_present;
use crate::weight::lemma_issue_weights_partition;
use crate::weight::lemma_sum_weights_nonneg;
use crate::weight::lemma_sum_weights_prefix_le;
use crate::weight::lemma_sum_weights_take_step;

verus! {

/// The recognized action kinds of an activity record.
#[derive(Clone, Copy, PartialEq, Eq, Structural, Debug)]
pub enum GitAction {
    Created,
    Deleted,
    Accepted,
    Opened,
    Approved,
    PushedTo,
    PushedNew,
    CommentedOn,
}

/// Push metadata of a record: a reference string and an optional commit title.
#[derive(Debug)]
pub struct PushData {
    pub reference: String,
    pub commit_title: Option<String>,
}

/// One raw activity record: an action kind, an optional title, optional push
/// metadata, and an optional timestamp (seconds since the epoch).
#[derive(Debug)]
pub struct ActivityJson {
    pub action: GitAction,
    pub target_title: Option<String>,
    pub push_data: Option<PushData>,
    pub created_at: Option<i64>,
}

/// One extracted activity: an issue key, the source record's action kind and
/// its timestamp.
#[derive(Debug)]
pub struct Activity {
    pub issue_name: String,
    pub datetime: Option<i64>,
    pub action: GitAction,
}

impl PartialEq for Activity {
    fn eq(&self, other: &Self) -> (r: bool) {
        let datetime_eq = match (self.datetime, other.datetime) {
            (Option::None, Option::None) => true,
            (Option::Some(a), Option::Some(b)) => a == b,
            _ => false,
        };
        datetime_eq && self.action == other.action && self.issue_name == other.issue_name
    }
}

impl vstd::std_specs::cmp::PartialEqSpecImpl for Activity {
    open spec fn obeys_eq_spec() -> bool {
        true
    }

    open spec fn eq_spec(&self, other: &Self) -> bool {
        &&& self.issue_name@ == other.issue_name@
        &&& self.datetime == other.datetime
        &&& self.action == other.action
    }
}

/// One grid entry: an issue key, its accumulated weight, and the share of
/// the total duration allocated to it.
#[derive(Debug)]
pub struct ActivityWeight {
    pub issue_name: String,
    pub weight: i32,
    pub duration: Duration,
}

/// The result of one aggregation: the grand total weight, the total input
/// duration, and one entry per distinct issue key.
#[derive(Debug)]
pub struct ActivityWeightGrid {
    pub total_weight: i32,
    pub total_duration: Duration,
    pub items: Vec<ActivityWeight>,
}

/// The text of a record that is searched for issue keys: its title, push
/// reference and push commit title, whichever are present, joined directly
/// with no separator.
pub open spec fn searchable_text(e: ActivityJson) -> Seq<char> {
    (match e.target_title {
        Option::Some(t) => t@,
        Option::None => Seq::empty(),
    }) + (match e.push_data {
        Option::Some(p) => p.reference@ + (match p.commit_title {
            Option::Some(c) => c@,
            Option::None => Seq::empty(),
        }),
        Option::None => Seq::empty(),
    })
}

impl ActivityJson {
    /// Extracts one activity per issue key found in the record's searchable
    /// text: as many activities as there are key matches, in match order,
    /// each carrying the record's action kind and timestamp unchanged. No
    /// match yields an empty list.
    pub fn get_activities(&self) -> (r: Vec<Activity>)
        ensures
            r@.len() == spec_issue_keys(searchable_text(*self)).len(),
            forall|j: int|
                0 <= j < r@.len() ==> (#[trigger] r@[j]).issue_name@ == spec_issue_keys(
                    searchable_text(*self),
                )[j],
            forall|j: int| 0 <= j < r@.len() ==> (#[trigger] r@[j]).action == self.action,
            forall|j: int| 0 <= j < r@.len() ==> (#[trigger] r@[j]).datetime == self.created_at,
    {
        let mut text = String::new();
        if let Option::Some(target_title) = &self.target_title {
            text.append(target_title.as_str());
        }
        if let Option::Some(push_data) = &self.push_data {
            text.append(push_data.reference.as_str());
            if let Option::Some(commit_title) = &push_data.commit_title {
                text.append(commit_title.as_str());
            }
        }
        proof {
            assert(text@ =~= searchable_text(*self));
        }
        let keys = find_issue_keys(text.as_str());
        let ghost key_seq = spec_issue_keys(searchable_text(*self));
        let mut result: Vec<Activity> = Vec::new();
        let mut i: usize = 0;
        while i < keys.len()
            invariant
                i <= keys@.len(),
                keys@.len() == key_seq.len(),
                forall|j: int| 0 <= j < keys@.len() ==> (#[trigger] keys@[j])@ == key_seq[j],
                result@.len() == i,
                forall|j: int|
                    0 <= j < i as int ==> (#[trigger] result@[j]).issue_name@ == key_seq[j],
                forall|j: int| 0 <= j < i as int ==> (#[trigger] result@[j]).action == self.action,
                forall|j: int|
                    0 <= j < i as int ==> (#[trigger] result@[j]).datetime == self.created_at,
            decreases keys@.len() - i,
        {
            let key = keys[i].clone();
            result.push(Activity { issue_name: key, action: self.action, datetime: self.created_at });
            i = i + 1;
        }
        result
    }
}

/// A grid `g` is the aggregation of the activities `acts` over
/// `total_duration`: the grand total is the sum of all action weights, there
/// is one entry per distinct issue key in first-occurrence order, each entry
/// carries that issue's accumulated weight, and each entry's duration is the
/// total duration times its weight, divided by the grand total (multiply
/// first, then divide, truncating).
pub open spec fn grid_matches(
    acts: Seq<Activity>,
    total_duration: Duration,
    g: ActivityWeightGrid,
) -> bool {
    let keys = issue_keys_of(acts);
    &&& g.total_duration == total_duration
    &&& g.total_weight as int == sum_weights(acts)
    &&& g.items@.len() == keys.len()
    &&& forall|j: int|
        0 <= j < keys.len() ==> (#[trigger] g.items@[j]).issue_name@ == keys[j]
    &&& forall|j: int|
        0 <= j < keys.len() ==> (#[trigger] g.items@[j]).weight as int == issue_weight(
            acts,
            keys[j],
        )
    &&& forall|j: int|
        0 <= j < keys.len() ==> (#[trigger] g.items@[j]).duration.seconds as int
            == total_duration.seconds * issue_weight(acts, keys[j]) / sum_weights(acts)
}

/// Allocates one issue's share of the total duration: the duration's
/// seconds times the issue's weight, then divided by the grand total
/// weight. Multiplying first and dividing second keeps the truncation
/// error below one second; the order is part of the contract.
pub fn allocate(total_duration: Duration, weight: i32, total_weight: i32) -> (r: Duration)
    requires
        0 <= total_duration.seconds,
        0 < total_weight,
        0 <= weight <= total_weight,
        total_duration.seconds * total_weight <= i64::MAX,
    ensures
        r.seconds == total_duration.seconds * weight as int / total_weight as int,
{
    proof {
        lemma_mul_inequality(weight as int, total_weight as int, total_duration.seconds as int);
        lemma_mul_is_commutative(weight as int, total_duration.seconds as int);
        lemma_mul_is_commutative(total_weight as int, total_duration.seconds as int);
        lemma_mul_nonnegative(total_duration.seconds as int, weight as int);
    }
    let num = total_duration.seconds * (weight as i64);
    Duration { seconds: num / (total_weight as i64) }
}

/// The index of the entry of `names` whose text equals `key`, if any.
fn find_key(names: &Vec<String>, key: &String) -> (r: Option<usize>)
    ensures
        match r {
            Option::Some(j) => j < names@.len() && names@[j as int]@ == key@,
            Option::None => forall|j: int| 0 <= j < names@.len() ==> (#[trigger] names@[j])@ != key@,
        },
{
    let mut j: usize = 0;
    while j < names.len()
        invariant
            j <= names@.len(),
            forall|m: int| 0 <= m < j as int ==> (#[trigger] names@[m])@ != key@,
        decreases names@.len() - j,
    {
        if names[j] == *key {
            return Option::Some(j);
        }
        j = j + 1;
    }
    Option::None
}

impl Activity {
    /// The importance weight of this activity's action kind: `Created` 10,
    /// `PushedNew` 7, `PushedTo` 5, every other kind 1. The lookup is total
    /// and never fails.
    pub fn calculate_weight(&self) -> (w: i32)
        ensures
            w as int == spec_weight(self.action),
    {
        match self.action {
            GitAction::Created => 10,
            GitAction::PushedNew => 7,
            GitAction::PushedTo => 5,
            _ => 1,
        }
    }

    /// Aggregates activities into a weight grid: per-issue weight sums, the
    /// grand total, and each issue's proportional share of `total_duration`.
    /// With no activities the grid has total weight 0 and no entries, and no
    /// division takes place.
    pub fn get_weigth_map(total_duration: Duration, activities: &Vec<Activity>) -> (g:
        ActivityWeightGrid)
        requires
            0 <= total_duration.seconds,
            sum_weights(activities@) <= i32::MAX,
            total_duration.seconds * sum_weights(activities@) <= i64::MAX,
        ensures
            grid_matches(activities@, total_duration, g),
    {
        let ghost acts = activities@;
        let mut names: Vec<String> = Vec::new();
        let mut weights: Vec<i32> = Vec::new();
        let mut total_weight: i32 = 0;
        let mut idx: usize = 0;
        proof {
            assert(acts.take(0) =~= Seq::<Activity>::empty());
        }
        while idx < activities.len()
            invariant
                acts == activities@,
                idx <= acts.len(),
                sum_weights(acts) <= i32::MAX,
                names@.len() == issue_keys_of(acts.take(idx as int)).len(),
                weights@.len() == names@.len(),
                forall|j: int|
                    0 <= j < names@.len() ==> (#[trigger] names@[j])@ == issue_keys_of(
                        acts.take(idx as int),
                    )[j],
                forall|j: int|
                    0 <= j < names@.len() ==> (#[trigger] weights@[j]) as int == issue_weight(
                        acts.take(idx as int),
                        issue_keys_of(acts.take(idx as int))[j],
                    ),
                total_weight as int == sum_weights(acts.take(idx as int)),
            decreases acts.len() - idx,
        {
            let a = &activities[idx];
            let w = a.calculate_weight();
            let ghost pre = acts.take(idx as int);
            let ghost post = acts.take(idx as int + 1);
            let ghost kx = a.issue_name@;
            proof {
                assert(post.drop_last() =~= pre);
                assert(post.last() == acts[idx as int]);
                lemma_sum_weights_take_step(acts, idx as int);
                lemma_sum_weights_prefix_le(acts, idx as int + 1);
                lemma_issue_keys_distinct(pre);
            }
            let found = find_key(&names, &a.issue_name);
            match found {
                Option::Some(j) => {
                    proof {
                        assert(issue_keys_of(pre)[j as int] == kx);
                        assert(issue_keys_of(pre).contains(kx));
                        assert(issue_keys_of(post) == issue_keys_of(pre));
                        lemma_issue_weight_bounds(post, kx);
                        lemma_sum_weights_nonneg(pre);
                    }
                    let neww = weights[j] + w;
                    weights[j] = neww;
                    proof {
                        assert forall|m: int| 0 <= m < names@.len() implies (#[trigger] weights@[m])
                            as int == issue_weight(post, issue_keys_of(post)[m]) by {
                            if m != j as int {
                                assert(issue_keys_of(pre)[m] != kx);
                            }
                        }
                    }
                }
                Option::None => {
                    proof {
                        assert(!issue_keys_of(pre).contains(kx)) by {
                            if issue_keys_of(pre).contains(kx) {
                                let m = choose|m: int|
                                    0 <= m < issue_keys_of(pre).len() && issue_keys_of(pre)[m]
                                        == kx;
                                assert(names@[m]@ == kx);
                            }
                        }
                        assert(issue_keys_of(post) == issue_keys_of(pre).push(kx));
                        lemma_issue_weight_bounds(post, kx);
                        lemma_sum_weights_nonneg(pre);
                    }
                    names.push(a.issue_name.clone());
                    weights.push(w);
                    proof {
                        assert forall|m: int| 0 <= m < names@.len() implies (#[trigger] weights@[m])
                            as int == issue_weight(post, issue_keys_of(post)[m]) by {
                            if m < names@.len() - 1 {
                                assert(issue_keys_of(pre)[m] != kx) by {
                                    if issue_keys_of(pre)[m] == kx {
                                        assert(issue_keys_of(pre).contains(kx));
                                    }
                                }
                                assert(weights@[m] == issue_weight(pre, issue_keys_of(pre)[m]));
                            } else {
                                assert(issue_keys_of(post)[m] == kx);
                                crate::weight::lemma_issue_weight_absent(pre, kx);
                            }
                        }
                        assert forall|m: int| 0 <= m < names@.len() implies (#[trigger] names@[m])@
                            == issue_keys_of(post)[m] by {
                        }
                    }
                }
            }
            total_weight = total_weight + w;
            idx = idx + 1;
        }
        proof {
            assert(acts.take(acts.len() as int) =~= acts);
        }
        let ghost keys = issue_keys_of(acts);
        let mut items: Vec<ActivityWeight> = Vec::new();
        let mut j: usize = 0;
        while j < names.len()
            invariant
                acts == activities@,
                keys == issue_keys_of(acts),
                0 <= total_duration.seconds,
                total_duration.seconds * sum_weights(acts) <= i64::MAX,
                total_weight as int == sum_weights(acts),
                names@.len() == keys.len(),
                weights@.len() == keys.len(),
                forall|m: int| 0 <= m < keys.len() ==> (#[trigger] names@[m])@ == keys[m],
                forall|m: int|
                    0 <= m < keys.len() ==> (#[trigger] weights@[m]) as int == issue_weight(
                        acts,
                        keys[m],
                    ),
                j <= keys.len(),
                items@.len() == j,
                forall|m: int|
                    0 <= m < j as int ==> (#[trigger] items@[m]).issue_name@ == keys[m],
                forall|m: int|
                    0 <= m < j as int ==> (#[trigger] items@[m]).weight as int == issue_weight(
                        acts,
                        keys[m],
                    ),
                forall|m: int|
                    0 <= m < j as int ==> (#[trigger] items@[m]).duration.seconds as int
                        == total_duration.seconds * issue_weight(acts, keys[m]) / sum_weights(
                        acts,
                    ),
            decreases names@.len() - j,
        {
            let w = weights[j];
            proof {
                assert(issue_keys_of(acts)[j as int] == keys[j as int]);
                assert(issue_keys_of(acts).contains(keys[j as int]));
                lemma_issue_weight_present(acts, keys[j as int]);
                lemma_issue_weight_bounds(acts, keys[j as int]);
            }
            let dur = allocate(total_duration, w, total_weight);
            items.push(ActivityWeight { issue_name: names[j].clone(), weight: w, duration: dur });
            j = j + 1;
        }
        ActivityWeightGrid { total_weight, total_duration, items }
    }
}

/// Aggregates like [`Activity::get_weigth_map`], but checks the machine
/// limits itself: it returns no grid when the summed weights would not fit
/// an `i32`, or when the duration-times-weight product would not fit an
/// `i64`. On every other input it returns the matching grid.
pub fn try_weight_grid(total_duration: Duration, activities: &Vec<Activity>) -> (r: Option<
    ActivityWeightGrid,
>)
    requires
        0 <= total_duration.seconds,
    ensures
        match r {
            Option::Some(g) => grid_matches(activities@, total_duration, g),
            Option::None => sum_weights(activities@) > i32::MAX || total_duration.seconds
                * sum_weights(activities@) > i64::MAX,
        },
{
    let ghost acts = activities@;
    let mut acc: i64 = 0;
    let mut idx: usize = 0;
    proof {
        assert(acts.take(0) =~= Seq::<Activity>::empty());
    }
    while idx < activities.len()
        invariant
            acts == activities@,
            idx <= acts.len(),
            acc as int == sum_weights(acts.take(idx as int)),
            0 <= acc <= i32::MAX,
        decreases acts.len() - idx,
    {
        let w = (&activities[idx]).calculate_weight();
        proof {
            lemma_sum_weights_take_step(acts, idx as int);
            lemma_sum_weights_prefix_le(acts, idx as int + 1);
        }
        if acc + (w as i64) > i32::MAX as i64 {
            return Option::None;
        }
        acc = acc + (w as i64);
        idx = idx + 1;
    }
    proof {
        assert(acts.take(acts.len() as int) =~= acts);
    }
    match total_duration.seconds.checked_mul(acc) {
        Option::Some(_) => Option::Some(Activity::get_weigth_map(total_duration, activities)),
        Option::None => {
            proof {
                lemma_mul_nonnegative(total_duration.seconds as int, acc as int);
            }
            Option::None
        },
    }
}

/// Every issue key that extraction reports for a record is well formed:
/// one of the two project prefixes, a dash, and at least one digit, however
/// the surrounding text reads.
pub proof fn lemma_extracted_keys_well_formed(e: ActivityJson)
    ensures
        forall|j: int|
            0 <= j < spec_issue_keys(searchable_text(e)).len() ==> crate::pattern::is_issue_key(
                #[trigger] spec_issue_keys(searchable_text(e))[j],
            ),
{
    crate::pattern::lemma_issue_keys_well_formed(searchable_text(e), 0);
}

/// A record with no title and no push metadata has no searchable text, so
/// extraction finds no issue key and yields an empty list.
pub proof fn lemma_no_text_no_activities(e: ActivityJson)
    requires
        e.target_title is None,
        e.push_data is None,
    ensures
        spec_issue_keys(searchable_text(e)).len() == 0,
{
    assert(searchable_text(e) =~= Seq::<char>::empty());
}

/// Partial-sum bounds behind [`lemma_allocation_bounds`]: over the first `i`
/// grid entries, the allocated seconds scaled by the grand total weight stay
/// within one truncation step per entry of the exact proportional share.
proof fn lemma_alloc_partial(
    acts: Seq<Activity>,
    total_duration: Duration,
    g: ActivityWeightGrid,
    i: int,
)
    requires
        grid_matches(acts, total_duration, g),
        0 <= total_duration.seconds,
        1 <= sum_weights(acts),
        0 <= i <= issue_keys_of(acts).len(),
    ensures
        sum_weights(acts) * sum_durations(g.items@.take(i)) <= total_duration.seconds
            * sum_issue_weights(acts, issue_keys_of(acts).take(i)),
        sum_weights(acts) * sum_durations(g.items@.take(i)) >= total_duration.seconds
            * sum_issue_weights(acts, issue_keys_of(acts).take(i)) - (sum_weights(acts) - 1) * i,
    decreases i,
{
    let w_total = sum_weights(acts);
    let di = total_duration.seconds as int;
    let keys = issue_keys_of(acts);
    if i == 0 {
        assert(g.items@.take(0) =~= Seq::<ActivityWeight>::empty());
        assert(keys.take(0) =~= Seq::<Seq<char>>::empty());
    } else {
        lemma_alloc_partial(acts, total_duration, g, i - 1);
        let s0 = sum_durations(g.items@.take(i - 1));
        let p0 = sum_issue_weights(acts, keys.take(i - 1));
        let w = issue_weight(acts, keys[i - 1]);
        let q = g.items@[i - 1].duration.seconds as int;
        assert(g.items@.take(i).drop_last() =~= g.items@.take(i - 1));
        assert(g.items@.take(i).last() == g.items@[i - 1]);
        assert(keys.take(i).drop_last() =~= keys.take(i - 1));
        assert(keys.take(i).last() == keys[i - 1]);
        assert(sum_durations(g.items@.take(i)) == s0 + q);
        assert(sum_issue_weights(acts, keys.take(i)) == p0 + w);
        assert(q == di * w / w_total);
        lemma_issue_weight_bounds(acts, keys[i - 1]);
        lemma_mul_nonnegative(di, w);
        lemma_fundamental_div_mod(di * w, w_total);
        lemma_mod_division_less_than_divisor(di * w, w_total);
        let r = (di * w) % w_total;
        assert(di * w == w_total * q + r);
        lemma_mul_is_distributive_add(w_total, s0, q);
        lemma_mul_is_distributive_add(di, p0, w);
        lemma_mul_is_distributive_sub(w_total - 1, i, i - 1);
        assert(w_total * (s0 + q) == w_total * s0 + w_total * q);
        assert(di * (p0 + w) == di * p0 + di * w);
        assert((w_total - 1) * i == (w_total - 1) * (i - 1) + (w_total - 1)) by (nonlinear_arith);
        assert(w_total * q == di * w - r);
        assert(r <= w_total - 1);
        assert(w_total * (s0 + q) <= di * (p0 + w));
        assert(w_total * (s0 + q) >= di * (p0 + w) - (w_total - 1) * i);
    }
}

/// The allocation truncation law: with at least one issue, the allocated
/// durations sum to at most the total duration, and fall short of it by
/// less than one second per issue.
pub proof fn lemma_allocation_bounds(
    acts: Seq<Activity>,
    total_duration: Duration,
    g: ActivityWeightGrid,
)
    requires
        grid_matches(acts, total_duration, g),
        0 <= total_duration.seconds,
        0 < issue_keys_of(acts).len(),
    ensures
        sum_durations(g.items@) <= total_duration.seconds,
        total_duration.seconds - sum_durations(g.items@) < g.items@.len(),
{
    let w_total = sum_weights(acts);
    let keys = issue_keys_of(acts);
    let n = keys.len() as int;
    let di = total_duration.seconds as int;
    assert(keys.contains(keys[0])) by {
        assert(keys[0] == keys[0]);
    }
    lemma_issue_weight_present(acts, keys[0]);
    lemma_issue_weight_bounds(acts, keys[0]);
    lemma_alloc_partial(acts, total_duration, g, n);
    assert(g.items@.take(n) =~= g.items@);
    assert(keys.take(n) =~= keys);
    lemma_issue_weights_partition(acts);
    let s = sum_durations(g.items@);
    lemma_mul_is_commutative(di, w_total);
    lemma_mul_is_commutative(s, w_total);
    lemma_mul_inequality_converse(s, di, w_total);
    lemma_mul_is_commutative(w_total - 1, n);
    lemma_mul_is_distributive_sub(n, w_total, 1);
    lemma_mul_is_commutative(n, w_total);
    assert(w_total * s >= w_total * di - w_total * n + n);
    assert(w_total * s > w_total * di - w_total * n);
    lemma_mul_is_distributive_sub(w_total, di, n);
    lemma_mul_is_commutative(di - n, w_total);
    lemma_mul_strict_inequality_converse(di - n, s, w_total);
}

/// Aggregation is a function of its input: two grids that both match the
/// same activities and total duration agree on the grand total and entry by
/// entry, on key, weight and allocated duration.
pub proof fn lemma_grid_unique(
    acts: Seq<Activity>,
    total_duration: Duration,
    g1: ActivityWeightGrid,
    g2: ActivityWeightGrid,
)
    requires
        grid_matches(acts, total_duration, g1),
        grid_matches(acts, total_duration, g2),
    ensures
        g1.total_weight == g2.total_weight,
        g1.total_duration == g2.total_duration,
        g1.items@.len() == g2.items@.len(),
        forall|j: int|
            0 <= j < g1.items@.len() ==> (#[trigger] g1.items@[j]).issue_name@
                == g2.items@[j].issue_name@,
        forall|j: int|
            0 <= j < g1.items@.len() ==> (#[trigger] g1.items@[j]).weight == g2.items@[j].weight,
        forall|j: int|
            0 <= j < g1.items@.len() ==> (#[trigger] g1.items@[j]).duration
                == g2.items@[j].duration,
{
}

} // verus!
