//! A generic pair of values of one type: a point or a two-component vector.
//!
//! Pairs are added component by component and ordered by dominance: one pair
//! lies below another only when both of its components do. Two pairs of which
//! neither dominates the other are incomparable.

use std::cmp::Ordering;
use std::fmt::Display;
use std::ops::Add;
use vstd::prelude::*;
use vstd::std_specs::cmp::PartialEqSpec;
use vstd::std_specs::cmp::PartialOrdIs;
use vstd::std_specs::cmp::PartialOrdSpec;
use vstd::std_specs::ops::AddSpec;
use vstd::string::*;

verus! {

/// A pair of two values of the same type.
#[derive(Debug)]
pub struct Vec2<T>(pub T, pub T);

impl<T: Clone> Clone for Vec2<T> {
    /// A pair of clones of the two components.
    fn clone(&self) -> (copy: Self)
        ensures
            cloned(self.0, copy.0),
            cloned(self.1, copy.1),
    {
        Vec2(self.0.clone(), self.1.clone())
    }
}

impl<T: Copy> Copy for Vec2<T> {}

impl<T: PartialEq> PartialEq for Vec2<T> {
    /// Two pairs are equal exactly when their first components are equal and
    /// their second components are equal.
    fn eq(&self, other: &Self) -> (equal: bool)
        ensures
            T::obeys_eq_spec() ==> equal == (self.0.eq_spec(&other.0) && self.1.eq_spec(&other.1)),
    {
        self.0 == other.0 && self.1 == other.1
    }
}

impl<T: PartialEq> vstd::std_specs::cmp::PartialEqSpecImpl for Vec2<T> {
    open spec fn obeys_eq_spec() -> bool {
        T::obeys_eq_spec()
    }

    open spec fn eq_spec(&self, other: &Self) -> bool {
        self.0.eq_spec(&other.0) && self.1.eq_spec(&other.1)
    }
}

impl<T: Eq> Eq for Vec2<T> {}

/// A pair whose components each equal themselves equals itself, and it differs
/// from the pair with the same components in the other order as soon as the
/// two components differ.
pub proof fn lemma_equality_of_pairs<T: PartialEq>(a: T, b: T)
    requires
        a.eq_spec(&a),
        b.eq_spec(&b),
    ensures
        Vec2(a, b).eq_spec(&Vec2(a, b)),
        !a.eq_spec(&b) ==> !Vec2(a, b).eq_spec(&Vec2(b, a)),
{
}

impl<T: PartialOrd> Vec2<T> {
    /// Both components lie strictly below those of `other`.
    pub open spec fn strictly_below(&self, other: &Self) -> bool {
        self.0.is_lt(&other.0) && self.1.is_lt(&other.1)
    }

    /// Both components lie below or level with those of `other`.
    pub open spec fn weakly_below(&self, other: &Self) -> bool {
        self.0.is_le(&other.0) && self.1.is_le(&other.1)
    }

    /// Both components lie strictly above those of `other`.
    pub open spec fn strictly_above(&self, other: &Self) -> bool {
        self.0.is_gt(&other.0) && self.1.is_gt(&other.1)
    }

    /// Both components lie above or level with those of `other`.
    pub open spec fn weakly_above(&self, other: &Self) -> bool {
        self.0.is_ge(&other.0) && self.1.is_ge(&other.1)
    }

    /// How the pair stands to `other` in the dominance order: equal, strictly
    /// above, strictly below, or, where none of these holds, incomparable.
    pub open spec fn dominance(&self, other: &Self) -> Option<Ordering> {
        if self.eq_spec(other) {
            Some(Ordering::Equal)
        } else if self.strictly_above(other) {
            Some(Ordering::Greater)
        } else if self.strictly_below(other) {
            Some(Ordering::Less)
        } else {
            None
        }
    }

    fn is_below(&self, other: &Self) -> (below: bool)
        ensures
            T::obeys_partial_cmp_spec() ==> below == self.strictly_below(other),
    {
        self.0 < other.0 && self.1 < other.1
    }

    fn is_above(&self, other: &Self) -> (above: bool)
        ensures
            T::obeys_partial_cmp_spec() ==> above == self.strictly_above(other),
    {
        self.0 > other.0 && self.1 > other.1
    }
}

impl<T: PartialOrd> PartialOrd for Vec2<T> {
    /// `Equal` for equal pairs, `Greater` where the pair is strictly above
    /// `other`, `Less` where it is strictly below, and nothing otherwise.
    fn partial_cmp(&self, other: &Self) -> (order: Option<Ordering>)
        ensures
            T::obeys_eq_spec() && T::obeys_partial_cmp_spec() ==> order == self.dominance(other),
    {
        if self == other {
            Some(Ordering::Equal)
        } else if self.is_above(other) {
            Some(Ordering::Greater)
        } else if self.is_below(other) {
            Some(Ordering::Less)
        } else {
            None
        }
    }

    fn lt(&self, other: &Self) -> (below: bool)
        ensures
            T::obeys_partial_cmp_spec() ==> below == self.strictly_below(other),
    {
        self.is_below(other)
    }

    fn le(&self, other: &Self) -> (below: bool)
        ensures
            T::obeys_partial_cmp_spec() ==> below == self.weakly_below(other),
    {
        self.0 <= other.0 && self.1 <= other.1
    }

    fn gt(&self, other: &Self) -> (above: bool)
        ensures
            T::obeys_partial_cmp_spec() ==> above == self.strictly_above(other),
    {
        self.is_above(other)
    }

    fn ge(&self, other: &Self) -> (above: bool)
        ensures
            T::obeys_partial_cmp_spec() ==> above == self.weakly_above(other),
    {
        self.0 >= other.0 && self.1 >= other.1
    }
}

/// `<=` and `>=` compare component by component, so they hold of pairs that
/// `partial_cmp` leaves incomparable, such as `(1, 1)` and `(2, 1)`. The pair
/// therefore does not promise the usual tie between the operators and
/// `partial_cmp`; each operator states its own meaning instead.
impl<T: PartialOrd> vstd::std_specs::cmp::PartialOrdSpecImpl for Vec2<T> {
    open spec fn obeys_partial_cmp_spec() -> bool {
        false
    }

    open spec fn partial_cmp_spec(&self, other: &Self) -> Option<Ordering> {
        self.dominance(other)
    }
}

/// Two unequal pairs that cross, the first component of one lying strictly
/// below and its second strictly above those of the other, are incomparable.
pub proof fn lemma_crossing_pairs_are_incomparable<T: PartialOrd>(a: Vec2<T>, b: Vec2<T>)
    requires
        a.0.is_lt(&b.0),
        a.1.is_gt(&b.1),
        !a.eq_spec(&b),
    ensures
        !a.strictly_below(&b),
        !a.strictly_above(&b),
        a.dominance(&b) is None,
{
}

/// On pairs of indices the dominance order is the usual test of bounds: a pair
/// lies strictly below another exactly when each coordinate is smaller.
pub proof fn lemma_strictly_below_on_indices(index: Vec2<usize>, bound: Vec2<usize>)
    ensures
        index.strictly_below(&bound) <==> index.0 < bound.0 && index.1 < bound.1,
{
}

impl<Lhs, Rhs, Out> Add<Vec2<Rhs>> for Vec2<Lhs> where Lhs: Add<Rhs, Output = Out> {
    type Output = Vec2<Out>;

    /// The pair of the sums of the first and of the second components.
    fn add(self, rhs: Vec2<Rhs>) -> (sum: Vec2<Out>)
        ensures
            Lhs::obeys_add_spec() ==> sum == Vec2(self.0.add_spec(rhs.0), self.1.add_spec(rhs.1)),
    {
        Vec2(self.0 + rhs.0, self.1 + rhs.1)
    }
}

impl<Lhs, Rhs, Out> vstd::std_specs::ops::AddSpecImpl<Vec2<Rhs>> for Vec2<Lhs> where Lhs: Add<Rhs, Output = Out> {
    open spec fn obeys_add_spec() -> bool {
        Lhs::obeys_add_spec()
    }

    /// Both component additions must be allowed; for integers, neither may
    /// overflow.
    open spec fn add_req(self, rhs: Vec2<Rhs>) -> bool {
        self.0.add_req(rhs.0) && self.1.add_req(rhs.1)
    }

    open spec fn add_spec(self, rhs: Vec2<Rhs>) -> Vec2<Out> {
        Vec2(self.0.add_spec(rhs.0), self.1.add_spec(rhs.1))
    }
}

/// The text of a pair whose components read `first` and `second`: an opening
/// brace, `first`, a semicolon and a space, `second`, a closing brace.
pub open spec fn braced(first: Seq<char>, second: Seq<char>) -> Seq<char> {
    seq!['{'] + first + seq![';', ' '] + second + seq!['}']
}

/// Puts the texts of two components between braces, as `{first; second}`.
pub fn brace(first: &str, second: &str) -> (text: String)
    ensures
        text@ == braced(first@, second@),
{
    let mut text = String::from_str("{");
    text.append(first);
    text.append("; ");
    text.append(second);
    text.append("}");
    proof {
        reveal_strlit("{");
        reveal_strlit("; ");
        reveal_strlit("}");
        assert("{"@ =~= seq!['{']);
        assert("; "@ =~= seq![';', ' ']);
        assert("}"@ =~= seq!['}']);
    }
    text
}

impl<T: Display> Vec2<T> {
    /// The pair for display: `{first; second}`, each component as its own
    /// `Display` writes it.
    pub fn to_string(&self) -> (text: String)
        ensures
            exists|first: String, second: String|
                to_string_from_display_ensures::<T>(&self.0, first)
                    && to_string_from_display_ensures::<T>(&self.1, second)
                    && text@ == braced(first@, second@),
    {
        let first = self.0.to_string();
        let second = self.1.to_string();
        brace(first.as_str(), second.as_str())
    }
}

} // verus!
