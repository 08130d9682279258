//! Legal values of a tunable parameter: single values, closed intervals and
//! arithmetic sequences, combined by union.

use vstd::arithmetic::div_mod::{
    lemma_fundamental_div_mod, lemma_mod_multiples_basic, lemma_small_mod, lemma_sub_mod_noop,
};
use vstd::prelude::*;

verus! {

/// One component of a [`Range`].
#[derive(Clone, Copy, Debug, PartialEq, Eq, Structural)]
pub enum RangeItem {
    /// Every value from the first to the second, both included.
    Interval(i64, i64),
    /// One value.
    Value(i64),
    /// The values `min`, `min + step`, `min + 2 * step`, ... up to `max`.
    Step(i64, i64, i64),
}

/// Distance between two numbers.
pub open spec fn dist(a: int, b: int) -> int {
    if a >= b {
        a - b
    } else {
        b - a
    }
}

/// `v` answers a request for `x` at least as well as `y` does: it is nearer
/// to `x`, or equally near and not larger.
pub open spec fn no_worse(x: int, v: int, y: int) -> bool {
    dist(v, x) < dist(y, x) || (dist(v, x) == dist(y, x) && v <= y)
}

/// Whether one of the first `n` items admits `x`.
pub open spec fn holds_within(items: Seq<RangeItem>, n: int, x: int) -> bool {
    exists|j: int| 0 <= j < n && j < items.len() && (#[trigger] items[j]).holds(x)
}

/// A positive multiple of `s` is at least `s`.
proof fn lemma_multiple_gap(d: int, s: int)
    requires
        s > 0,
        d > 0,
        d % s == 0,
    ensures
        d >= s,
{
    if d < s {
        lemma_small_mod(d as nat, s as nat);
    }
}

/// Two positions of one sequence differ by a multiple of the step.
proof fn lemma_same_grid(a: int, b: int, base: int, s: int)
    requires
        s > 0,
        (a - base) % s == 0,
        (b - base) % s == 0,
    ensures
        (a - b) % s == 0,
{
    lemma_sub_mod_noop(a - base, b - base, s);
    assert((a - base) - (b - base) == a - b);
    lemma_small_mod(0, s as nat);
}

impl RangeItem {
    /// The shape is sound: bounds in order, and a positive step.
    pub open spec fn well_formed(self) -> bool {
        match self {
            RangeItem::Interval(min, max) => min <= max,
            RangeItem::Value(_) => true,
            RangeItem::Step(min, max, step) => min <= max && step > 0,
        }
    }

    /// Whether `x` is a legal value of this item. An item that is not well
    /// formed admits nothing.
    pub open spec fn holds(self, x: int) -> bool {
        match self {
            RangeItem::Interval(min, max) => min <= x <= max,
            RangeItem::Value(v) => x == v,
            RangeItem::Step(min, max, step) => min <= x <= max && step > 0 && (x - min) % (
            step as int) == 0,
        }
    }

    /// Whether `x` is a legal value of this item.
    pub fn contains(&self, x: i64) -> (r: bool)
        ensures
            r == self.holds(x as int),
    {
        match *self {
            RangeItem::Interval(min, max) => min <= x && x <= max,
            RangeItem::Value(v) => x == v,
            RangeItem::Step(min, max, step) => {
                if step <= 0 || x < min || x > max {
                    false
                } else {
                    let offset: u128 = (x as i128 - min as i128) as u128;
                    offset % (step as u128) == 0
                }
            },
        }
    }

    /// The legal value of this item nearest to `x`; of two equally near, the
    /// smaller. `None` if the item admits no value at all.
    pub fn clamp(&self, x: i64) -> (r: Option<i64>)
        ensures
            match r {
                Some(v) => self.holds(v as int) && forall|y: int|
                    self.holds(y) ==> no_worse(x as int, v as int, y),
                None => forall|y: int| !self.holds(y),
            },
    {
        match *self {
            RangeItem::Interval(min, max) => {
                if min > max {
                    None
                } else if x < min {
                    Some(min)
                } else if x > max {
                    Some(max)
                } else {
                    Some(x)
                }
            },
            RangeItem::Value(v) => Some(v),
            RangeItem::Step(min, max, step) => {
                if step <= 0 || min > max {
                    return None;
                }
                if x <= min {
                    proof {
                        lemma_small_mod(0, step as nat);
                    }
                    return Some(min);
                }
                let cap: i64 = if x < max {
                    x
                } else {
                    max
                };
                let s: u128 = step as u128;
                let span: u128 = (cap as i128 - min as i128) as u128;
                let q: u128 = span / s;
                proof {
                    lemma_fundamental_div_mod(span as int, s as int);
                    lemma_mod_multiples_basic(q as int, s as int);
                    assert(s * q == q * s) by (nonlinear_arith);
                    assert(0 <= q * s <= span) by (nonlinear_arith)
                        requires
                            span == s * q + (span % s),
                            0 <= span % s,
                            q >= 0,
                            s > 0,
                    ;
                }
                let below: i64 = (min as i128 + (q * s) as i128) as i64;
                let above: i128 = below as i128 + step as i128;
                proof {
                    assert((below - min) % (step as int) == 0);
                    assert(above > cap);
                    assert forall|y: int| self.holds(y) implies y <= below || y >= above by {
                        if y > below {
                            lemma_same_grid(y, below as int, min as int, step as int);
                            lemma_multiple_gap(y - below, step as int);
                        }
                    }
                }
                if above > max as i128 {
                    Some(below)
                } else {
                    proof {
                        assert(above - min == (q + 1) * s) by (nonlinear_arith)
                            requires
                                below - min == q * s,
                                above == below + step,
                                s == step,
                        ;
                        lemma_mod_multiples_basic(q + 1, s as int);
                    }
                    if x as i128 - below as i128 <= above - x as i128 {
                        Some(below)
                    } else {
                        Some(above as i64)
                    }
                }
            },
        }
    }
}

/// The legal values of a parameter: the union of its items.
#[derive(Clone, Debug, PartialEq, Eq)]
pub struct Range {
    /// The components, in the order in which they were given.
    pub items: Vec<RangeItem>,
}

impl View for Range {
    type V = Seq<RangeItem>;

    open spec fn view(&self) -> Seq<RangeItem> {
        self.items@
    }
}

impl Range {
    /// Every item is well formed.
    pub open spec fn well_formed(self) -> bool {
        forall|j: int| 0 <= j < self@.len() ==> (#[trigger] self@[j]).well_formed()
    }

    /// Whether `x` is a legal value: some item admits it.
    pub open spec fn holds(self, x: int) -> bool {
        holds_within(self@, self@.len() as int, x)
    }

    /// The range made of `items`.
    pub fn new(items: Vec<RangeItem>) -> (r: Range)
        ensures
            r@ == items@,
    {
        Range { items }
    }

    /// Whether `x` is a legal value.
    pub fn contains(&self, x: i64) -> (r: bool)
        ensures
            r == self.holds(x as int),
    {
        let mut i: usize = 0;
        while i < self.items.len()
            invariant
                i <= self.items.len(),
                !holds_within(self@, i as int, x as int),
            decreases self.items.len() - i,
        {
            if self.items[i].contains(x) {
                return true;
            }
            i = i + 1;
        }
        false
    }

    /// The legal value nearest to `x`; of two equally near, the smaller.
    /// `None` if the range admits no value at all.
    pub fn clamp(&self, x: i64) -> (r: Option<i64>)
        ensures
            match r {
                Some(v) => self.holds(v as int) && forall|y: int|
                    self.holds(y) ==> no_worse(x as int, v as int, y),
                None => forall|y: int| !self.holds(y),
            },
    {
        let mut best: Option<i64> = None;
        let mut i: usize = 0;
        while i < self.items.len()
            invariant
                i <= self.items.len(),
                match best {
                    Some(v) => holds_within(self@, i as int, v as int) && forall|y: int|
                        holds_within(self@, i as int, y) ==> no_worse(x as int, v as int, y),
                    None => forall|y: int| !holds_within(self@, i as int, y),
                },
            decreases self.items.len() - i,
        {
            let item = self.items[i];
            let found = item.clamp(x);
            let ghost old_best = best;
            match found {
                None => {},
                Some(c) => {
                    match best {
                        None => {
                            best = found;
                        },
                        Some(b) => {
                            let dc: i128 = if c >= x {
                                c as i128 - x as i128
                            } else {
                                x as i128 - c as i128
                            };
                            let db: i128 = if b >= x {
                                b as i128 - x as i128
                            } else {
                                x as i128 - b as i128
                            };
                            if dc < db || (dc == db && c < b) {
                                best = found;
                            }
                        },
                    }
                },
            }
            proof {
                let n = i as int;
                let m: int = n + 1;
                assert forall|y: int| holds_within(self@, m, y) implies (holds_within(
                    self@,
                    n,
                    y,
                ) || item.holds(y)) by {
                    let j = choose|j: int|
                        0 <= j < m && j < self@.len() && (#[trigger] self@[j]).holds(y);
                    if j < n {
                        assert(holds_within(self@, n, y));
                    }
                }
                assert forall|y: int| holds_within(self@, n, y) implies holds_within(
                    self@,
                    m,
                    y,
                ) by {
                    let j = choose|j: int|
                        0 <= j < n && j < self@.len() && (#[trigger] self@[j]).holds(y);
                    assert(self@[j].holds(y));
                }
                assert forall|y: int| item.holds(y) implies holds_within(self@, m, y) by {
                    assert(self@[n].holds(y));
                }
                if best is None {
                    assert forall|y: int| !holds_within(self@, m, y) by {
                        if holds_within(self@, m, y) {
                            assert(holds_within(self@, n, y) || item.holds(y));
                        }
                    }
                }
                if let Some(v) = best {
                    if best == found {
                        assert(item.holds(v as int));
                    } else {
                        assert(holds_within(self@, n, v as int));
                    }
                    assert(holds_within(self@, m, v as int));
                    assert forall|y: int| holds_within(self@, m, y) implies no_worse(
                        x as int,
                        v as int,
                        y,
                    ) by {
                        if holds_within(self@, n, y) {
                            let b = old_best->Some_0;
                            assert(no_worse(x as int, b as int, y));
                            assert(no_worse(x as int, v as int, b as int));
                        } else {
                            let c = found->Some_0;
                            assert(item.holds(y));
                            assert(no_worse(x as int, c as int, y));
                            assert(no_worse(x as int, v as int, c as int));
                        }
                    }
                    assert(forall|y: int|
                        holds_within(self@, m, y) ==> no_worse(x as int, v as int, y));
                }
            }
            i = i + 1;
        }
        best
    }
}

/// What `clamp` promises fixes its result: two values that are both legal
/// and both no worse than every legal value are the same value.
pub proof fn lemma_nearest_unique(r: Range, x: int, v: int, w: int)
    requires
        r.holds(v),
        r.holds(w),
        forall|y: int| r.holds(y) ==> no_worse(x, v, y),
        forall|y: int| r.holds(y) ==> no_worse(x, w, y),
    ensures
        v == w,
{
    assert(no_worse(x, v, w));
    assert(no_worse(x, w, v));
}

/// A legal value is its own nearest legal value: `clamp` hands it back.
pub proof fn lemma_nearest_of_legal(r: Range, x: int, v: int)
    requires
        r.holds(x),
        r.holds(v),
        forall|y: int| r.holds(y) ==> no_worse(x, v, y),
    ensures
        v == x,
{
    assert(no_worse(x, v, x));
}

/// A well-formed arithmetic sequence holds its lower bound, holds its upper
/// bound when that lies a whole number of steps above the lower one, and
/// holds nothing outside its bounds.
pub proof fn lemma_step_bounds(r: Range, min: i64, max: i64, step: i64, x: int)
    requires
        r@ == seq![RangeItem::Step(min, max, step)],
        step > 0,
        min <= max,
    ensures
        r.holds(min as int),
        (max - min) % (step as int) == 0 ==> r.holds(max as int),
        x < min || x > max ==> !r.holds(x),
{
    let item = RangeItem::Step(min, max, step);
    assert(r@[0] == item);
    lemma_small_mod(0, step as nat);
    assert(item.holds(min as int));
    if (max - min) % (step as int) == 0 {
        assert(item.holds(max as int));
    }
}

} // verus!
