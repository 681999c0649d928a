//! The filter policy: which listings are stored, and which stored listings
//! are worth a notification.

use vstd::prelude::*;
use crate::extract::texts;
use crate::number::{currency_of, distance_of, normalize_currency, normalize_distance, pow10,
    DecimalView};
use crate::text::{chars_of, contains_phrase, find_phrase, occurs_at};

verus! {

/// The thresholds and exclusions that the filters go by.
#[derive(Clone, Debug)]
pub struct Policy {
    /// A listing is stored only if its price is below this.
    pub cost_ceiling: u64,
    /// A stored listing is notified of only if its mileage is below this.
    pub mileage_ceiling: u64,
    /// A listing is stored only if its category holds none of these.
    pub excluded_category_markers: Vec<String>,
}

/// The mathematical value of a [`Policy`].
pub struct PolicyView {
    pub cost_ceiling: int,
    pub mileage_ceiling: int,
    pub excluded_category_markers: Seq<Seq<char>>,
}

impl View for Policy {
    type V = PolicyView;

    open spec fn view(&self) -> PolicyView {
        PolicyView {
            cost_ceiling: self.cost_ceiling as int,
            mileage_ceiling: self.mileage_ceiling as int,
            excluded_category_markers: texts(self.excluded_category_markers@),
        }
    }
}

impl PolicyView {
    /// Whether `category` holds one of the excluded markers.
    pub open spec fn excludes(self, category: Seq<char>) -> bool {
        exists|i: int|
            0 <= i < self.excluded_category_markers.len() && contains_phrase(
                category,
                #[trigger] self.excluded_category_markers[i],
            )
    }

    /// Whether a listing of this category and raw price is stored: the
    /// category holds no excluded marker, and the price reads as a number
    /// below the cost ceiling.
    pub open spec fn stores(self, category: Seq<char>, price: Seq<char>) -> bool {
        &&& !self.excludes(category)
        &&& currency_of(price) is Ok
        &&& currency_of(price)->Ok_0.below(self.cost_ceiling)
    }

    /// Whether a stored listing of this raw mileage is notified of: there
    /// is a mileage, and it reads as a number below the mileage ceiling.
    pub open spec fn notifies(self, mileage: Option<Seq<char>>) -> bool {
        &&& mileage is Some
        &&& distance_of(mileage->0) is Ok
        &&& distance_of(mileage->0)->Ok_0.below(self.mileage_ceiling)
    }
}

impl Policy {
    /// A policy of the given thresholds and exclusions.
    pub fn new(cost_ceiling: u64, mileage_ceiling: u64, excluded_category_markers: Vec<String>) -> (p:
        Policy)
        ensures
            p.cost_ceiling == cost_ceiling,
            p.mileage_ceiling == mileage_ceiling,
            p.excluded_category_markers == excluded_category_markers,
    {
        Policy { cost_ceiling, mileage_ceiling, excluded_category_markers }
    }

    /// Whether `category` holds one of the excluded markers.
    pub fn excludes_category(&self, category: &str) -> (r: bool)
        ensures
            r == self@.excludes(category@),
    {
        let text = chars_of(category);
        let ghost markers = self@.excluded_category_markers;
        let mut i: usize = 0;
        while i < self.excluded_category_markers.len()
            invariant
                i <= self.excluded_category_markers.len(),
                markers == texts(self.excluded_category_markers@),
                text@ == category@,
                forall|j: int| 0 <= j < i ==> !contains_phrase(category@, #[trigger] markers[j]),
            decreases self.excluded_category_markers.len() - i,
        {
            let marker = chars_of(self.excluded_category_markers[i].as_str());
            if find_phrase(text.as_slice(), marker.as_slice()).is_some() {
                assert(contains_phrase(category@, self@.excluded_category_markers[i as int]));
                return true;
            }
            i += 1;
        }
        false
    }

    /// Decides whether a listing of this category and raw price is stored.
    /// A price that does not read as a number does not qualify.
    pub fn qualifies_for_storage(&self, category: &str, price: &str) -> (r: bool)
        ensures
            r == self@.stores(category@, price@),
    {
        if self.excludes_category(category) {
            return false;
        }
        match normalize_currency(price) {
            Ok(amount) => amount.is_below(self.cost_ceiling),
            Err(_) => false,
        }
    }

    /// Decides whether a stored listing of this raw mileage is notified of.
    /// A listing without a mileage, or with one that does not read as a
    /// number, does not qualify.
    pub fn qualifies_for_notification(&self, mileage: &Option<String>) -> (r: bool)
        ensures
            r == self@.notifies(crate::listing::opt_text(*mileage)),
    {
        match mileage {
            Some(raw) => match normalize_distance(raw.as_str()) {
                Ok(distance) => distance.is_below(self.mileage_ceiling),
                Err(_) => false,
            },
            None => false,
        }
    }
}

/// A listing whose category holds an excluded marker is not stored,
/// whatever its price.
pub proof fn lemma_excluded_category_is_not_stored(
    policy: PolicyView,
    category: Seq<char>,
    price: Seq<char>,
    marker: int,
)
    requires
        0 <= marker < policy.excluded_category_markers.len(),
        contains_phrase(category, policy.excluded_category_markers[marker]),
    ensures
        !policy.stores(category, price),
{
}

/// Under a policy that excludes the marker `Trucks`, a listing of the
/// category `Vehicles > Trucks` is not stored, whatever its price.
pub proof fn lemma_trucks_are_not_stored(policy: PolicyView, price: Seq<char>, marker: int)
    requires
        0 <= marker < policy.excluded_category_markers.len(),
        policy.excluded_category_markers[marker] == "Trucks"@,
    ensures
        !policy.stores("Vehicles > Trucks"@, price),
{
    reveal_strlit("Trucks");
    reveal_strlit("Vehicles > Trucks");
    let category = "Vehicles > Trucks"@;
    assert(category.subrange(11, 17) == "Trucks"@);
    assert(occurs_at(category, "Trucks"@, 11));
}

/// A listing without a mileage is never notified of.
pub proof fn lemma_absent_mileage_never_notifies(policy: PolicyView)
    ensures
        !policy.notifies(None),
{
}

/// A decimal that writes the integer `value` is below a bound exactly when
/// `value` is.
pub proof fn lemma_integer_below(d: DecimalView, value: int, bound: int)
    requires
        d.mantissa == value * pow10(d.scale),
    ensures
        d.below(bound) <==> value < bound,
{
    let p = pow10(d.scale) as int;
    assert(p > 0) by {
        lemma_pow10_positive(d.scale);
    }
    if value < bound {
        assert(value * p < bound * p) by (nonlinear_arith)
            requires
                value < bound,
                p > 0,
        ;
    } else {
        assert(value * p >= bound * p) by (nonlinear_arith)
            requires
                value >= bound,
                p > 0,
        ;
    }
}

/// Ten to any power is positive.
pub proof fn lemma_pow10_positive(k: nat)
    ensures
        pow10(k) > 0,
    decreases k,
{
    if k > 0 {
        lemma_pow10_positive((k - 1) as nat);
    }
}

/// A stored listing whose mileage reads as the integer `value` is notified
/// of exactly when `value` is below the mileage ceiling: at a ceiling of
/// 160000, a mileage of 120000 is, and one of 170000 is not.
pub proof fn lemma_notification_threshold(policy: PolicyView, mileage: Seq<char>, value: int)
    requires
        distance_of(mileage) is Ok,
        distance_of(mileage)->Ok_0.mantissa == value * pow10(distance_of(mileage)->Ok_0.scale),
    ensures
        policy.notifies(Some(mileage)) <==> value < policy.mileage_ceiling,
        policy.mileage_ceiling == 160000 && value == 120000 ==> policy.notifies(Some(mileage)),
        policy.mileage_ceiling == 160000 && value == 170000 ==> !policy.notifies(Some(mileage)),
{
    lemma_integer_below(distance_of(mileage)->Ok_0, value, policy.mileage_ceiling);
}

/// A listing of a category that holds no excluded marker, whose price reads
/// as the integer `value`, is stored exactly when `value` is below the cost
/// ceiling.
pub proof fn lemma_storage_threshold(
    policy: PolicyView,
    category: Seq<char>,
    price: Seq<char>,
    value: int,
)
    requires
        !policy.excludes(category),
        currency_of(price) is Ok,
        currency_of(price)->Ok_0.mantissa == value * pow10(currency_of(price)->Ok_0.scale),
    ensures
        policy.stores(category, price) <==> value < policy.cost_ceiling,
{
    lemma_integer_below(currency_of(price)->Ok_0, value, policy.cost_ceiling);
}

} // verus!
