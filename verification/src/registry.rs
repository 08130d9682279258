//! Discovery and selection: which backends to ask, how their answers are
//! gathered, and which of the units found a filter picks.

use crate::args::{has_key, lookup, Args, Entries};
use crate::device::Driver;
use crate::error::Error;
use crate::text::same_text;
use crate::value::{decimal, ArgValue};
use vstd::prelude::*;

verus! {

/// The contents of a list of argument lists.
pub open spec fn views(found: Seq<Args>) -> Seq<Entries> {
    found.map_values(|a: Args| a@)
}

/// Whether `candidate` carries every pair of `filter` with the same value.
/// The `index` pair is no property of a unit and is left aside.
pub open spec fn matches_spec(filter: Entries, candidate: Entries) -> bool {
    forall|i: int|
        0 <= i < filter.len() ==> (#[trigger] filter[i]).0 == "index"@ || lookup(
            candidate,
            filter[i].0,
        ) == Some(filter[i].1)
}

/// The units of `found` that match `filter`, in order.
pub open spec fn matching_units(filter: Entries, found: Seq<Entries>) -> Seq<Entries>
    decreases found.len(),
{
    if found.len() == 0 {
        Seq::empty()
    } else {
        let rest = matching_units(filter, found.drop_last());
        if matches_spec(filter, found.last()) {
            rest.push(found.last())
        } else {
            rest
        }
    }
}

/// The positions in `found` of the units that match `filter`, in order.
pub open spec fn matching(filter: Entries, found: Seq<Entries>) -> Seq<int>
    decreases found.len(),
{
    if found.len() == 0 {
        Seq::empty()
    } else {
        let rest = matching(filter, found.drop_last());
        if matches_spec(filter, found.last()) {
            rest.push(found.len() - 1)
        } else {
            rest
        }
    }
}

/// The position in `found` of the unit that `filter` picks.
///
/// With no `index`, exactly one unit must match: none is `NotFound`, more
/// than one is `ValueError`. With an `index`, it counts through the matching
/// units from 0: none matching is `NotFound`; an index that is no number,
/// or that is past the last match, is `ValueError`.
pub open spec fn select_spec(filter: Entries, found: Seq<Entries>) -> Result<int, Error> {
    let hits = matching(filter, found);
    match lookup(filter, "index"@) {
        Some(text) => if !usize::accepts(text) {
            Err(Error::ValueError)
        } else if hits.len() == 0 {
            Err(Error::NotFound)
        } else if decimal(text, false)->Some_0 < hits.len() {
            Ok(hits[decimal(text, false)->Some_0])
        } else {
            Err(Error::ValueError)
        },
        None => if hits.len() == 0 {
            Err(Error::NotFound)
        } else if hits.len() == 1 {
            Ok(hits[0])
        } else {
            Err(Error::ValueError)
        },
    }
}

/// The backends to ask for `filter`: the one that its `driver` pair names,
/// all of them without such a pair. `None` where the pair names no driver.
pub open spec fn candidates_spec(drivers: Seq<Driver>, filter: Entries) -> Option<Seq<Driver>> {
    match lookup(filter, "driver"@) {
        Some(text) => if Driver::accepts(text) {
            Some(drivers.filter(|d: Driver| d.tag() == text))
        } else {
            None
        },
        None => Some(drivers),
    }
}

/// The backend that opens `filter` without discovery, if any. A filter
/// that hands over a file descriptor, an `fd` pair that spells a 32-bit
/// number, names a unit that cannot be looked for: it goes straight to the
/// one backend that the filter leaves, and fails with `NotFound` if it
/// leaves none and with `ValueError` if it leaves several or names no
/// driver. Every other filter goes through discovery.
pub open spec fn direct_spec(drivers: Seq<Driver>, filter: Entries) -> Result<
    Option<Driver>,
    Error,
> {
    if has_key(filter, "fd"@) && i32::accepts(lookup(filter, "fd"@)->Some_0) {
        match candidates_spec(drivers, filter) {
            Some(left) => if left.len() == 0 {
                Err(Error::NotFound)
            } else if left.len() == 1 {
                Ok(Some(left[0]))
            } else {
                Err(Error::ValueError)
            },
            None => Err(Error::ValueError),
        }
    } else {
        Ok(None)
    }
}

/// Every position that `matching` lists is a position of `found`, at which
/// a matching unit stands.
pub proof fn lemma_matching(filter: Entries, found: Seq<Entries>)
    ensures
        matching(filter, found).len() <= found.len(),
        forall|k: int|
            0 <= k < matching(filter, found).len() ==> 0 <= #[trigger] matching(filter, found)[k]
                < found.len() && matches_spec(filter, found[matching(filter, found)[k]]),
        forall|j: int|
            0 <= j < found.len() && matches_spec(filter, found[j]) ==> matching(
                filter,
                found,
            ).contains(j),
    decreases found.len(),
{
    if found.len() > 0 {
        let init = found.drop_last();
        let rest = matching(filter, init);
        let all = matching(filter, found);
        lemma_matching(filter, init);
        assert forall|k: int| 0 <= k < all.len() implies 0 <= #[trigger] all[k] < found.len()
            && matches_spec(filter, found[all[k]]) by {
            if k < rest.len() {
                assert(all[k] == rest[k]);
                assert(found[rest[k]] == init[rest[k]]);
            }
        }
        assert forall|j: int| 0 <= j < found.len() && matches_spec(
            filter,
            found[j],
        ) implies all.contains(j) by {
            if j < init.len() {
                assert(init[j] == found[j]);
                assert(rest.contains(j));
                let k = choose|k: int| 0 <= k < rest.len() && rest[k] == j;
                assert(all[k] == j);
            } else {
                assert(all[all.len() - 1] == j);
            }
        }
    }
}

/// The matching units are the units at the matching positions.
pub proof fn lemma_matching_units(filter: Entries, found: Seq<Entries>)
    ensures
        matching_units(filter, found).len() == matching(filter, found).len(),
        forall|k: int|
            0 <= k < matching(filter, found).len() ==> #[trigger] matching_units(filter, found)[k]
                == found[matching(filter, found)[k]],
    decreases found.len(),
{
    if found.len() > 0 {
        let init = found.drop_last();
        lemma_matching_units(filter, init);
        lemma_matching(filter, init);
        let units = matching_units(filter, found);
        let hits = matching(filter, found);
        assert forall|k: int| 0 <= k < hits.len() implies #[trigger] units[k] == found[hits[k]] by {
            if k < matching(filter, init).len() {
                assert(units[k] == matching_units(filter, init)[k]);
                assert(hits[k] == matching(filter, init)[k]);
                assert(init[hits[k]] == found[hits[k]]);
            }
        }
    }
}

/// Filtering twice with one filter is filtering once: among units that
/// all match, every unit is kept.
pub proof fn lemma_matching_units_idempotent(filter: Entries, found: Seq<Entries>)
    ensures
        matching_units(filter, matching_units(filter, found)) == matching_units(filter, found),
    decreases found.len(),
{
    if found.len() > 0 {
        let init = found.drop_last();
        lemma_matching_units_idempotent(filter, init);
        let rest = matching_units(filter, init);
        if matches_spec(filter, found.last()) {
            let all = rest.push(found.last());
            assert(all.drop_last() =~= rest);
            assert(all.last() == found.last());
        }
    }
}

/// The unit that a filter picks is one of the units found, and it matches
/// the filter.
pub proof fn lemma_select_matches(filter: Entries, found: Seq<Entries>)
    requires
        select_spec(filter, found) is Ok,
    ensures
        0 <= select_spec(filter, found)->Ok_0 < found.len(),
        matches_spec(filter, found[select_spec(filter, found)->Ok_0]),
{
    lemma_matching(filter, found);
}

/// Without an `index`, a filter that exactly one unit matches picks that
/// unit, and a filter that several units match picks none.
pub proof fn lemma_select_unique(filter: Entries, found: Seq<Entries>, i: int, j: int)
    requires
        lookup(filter, "index"@) is None,
        0 <= i < found.len(),
        0 <= j < found.len(),
        matches_spec(filter, found[i]),
        matches_spec(filter, found[j]),
    ensures
        i != j ==> select_spec(filter, found) == Err::<int, Error>(Error::ValueError),
        select_spec(filter, found) is Ok ==> select_spec(filter, found)->Ok_0 == i,
{
    lemma_matching(filter, found);
    let hits = matching(filter, found);
    assert(hits.contains(i));
    assert(hits.contains(j));
    let a = choose|a: int| 0 <= a < hits.len() && hits[a] == i;
    let b = choose|b: int| 0 <= b < hits.len() && hits[b] == j;
    if i != j {
        assert(a != b);
    }
}

/// Whether `candidate` carries every pair of `filter`, the `index` pair aside.
pub fn is_match(filter: &Args, candidate: &Args) -> (r: bool)
    ensures
        r == matches_spec(filter@, candidate@),
{
    let n = filter.len();
    let mut i: usize = 0;
    while i < n
        invariant
            i <= n,
            n == filter@.len(),
            forall|j: int|
                0 <= j < i ==> (#[trigger] filter@[j]).0 == "index"@ || lookup(
                    candidate@,
                    filter@[j].0,
                ) == Some(filter@[j].1),
        decreases n - i,
    {
        let key = filter.key_at(i);
        if !same_text(key, "index") {
            let held = match candidate.value(key) {
                Some(v) => same_text(v, filter.value_at(i)),
                None => false,
            };
            if !held {
                return false;
            }
        }
        i = i + 1;
    }
    true
}

/// The position in `found` of the unit that `filter` picks.
pub fn select(filter: &Args, found: &Vec<Args>) -> (r: Result<usize, Error>)
    ensures
        match select_spec(filter@, views(found@)) {
            Ok(i) => r == Ok::<usize, Error>(i as usize) && 0 <= i < found@.len(),
            Err(e) => r == Err::<usize, Error>(e),
        },
{
    let ghost all = views(found@);
    let mut hits: Vec<usize> = Vec::new();
    let mut i: usize = 0;
    proof {
        assert(all.take(0) =~= Seq::<Entries>::empty());
    }
    while i < found.len()
        invariant
            i <= found.len(),
            all == views(found@),
            hits@.len() == matching(filter@, all.take(i as int)).len(),
            forall|k: int|
                0 <= k < hits@.len() ==> (#[trigger] hits@[k]) as int == matching(
                    filter@,
                    all.take(i as int),
                )[k],
        decreases found.len() - i,
    {
        proof {
            assert(all.take(i + 1).drop_last() =~= all.take(i as int));
            assert(all.take(i + 1).last() == found@[i as int]@);
        }
        if is_match(filter, &found[i]) {
            hits.push(i);
        }
        i = i + 1;
    }
    proof {
        assert(all.take(i as int) =~= all);
        lemma_matching(filter@, all);
    }
    let wanted = filter.get::<usize>("index");
    match wanted {
        Ok(k) => {
            if hits.len() == 0 {
                Err(Error::NotFound)
            } else if k < hits.len() {
                Ok(hits[k])
            } else {
                Err(Error::ValueError)
            }
        },
        Err(Error::NotFound) => {
            if hits.len() == 0 {
                Err(Error::NotFound)
            } else if hits.len() == 1 {
                Ok(hits[0])
            } else {
                Err(Error::ValueError)
            }
        },
        Err(_) => Err(Error::ValueError),
    }
}

/// Gather what one backend found. The units of a backend that answered are
/// added behind those gathered before; a backend that failed adds nothing,
/// and the result says so.
pub fn absorb(found: &mut Vec<Args>, outcome: Result<Vec<Args>, Error>) -> (skipped: bool)
    ensures
        skipped == outcome is Err,
        outcome is Ok ==> final(found)@ == old(found)@ + outcome->Ok_0@,
        outcome is Err ==> final(found)@ == old(found)@,
{
    match outcome {
        Ok(mut units) => {
            found.append(&mut units);
            false
        },
        Err(_) => true,
    }
}

/// The backends that are built in.
pub struct Registry {
    drivers: Vec<Driver>,
}

impl View for Registry {
    type V = Seq<Driver>;

    closed spec fn view(&self) -> Seq<Driver> {
        self.drivers@
    }
}

impl Registry {
    /// The registry of all built-in backends.
    pub fn new() -> (r: Registry)
        ensures
            r@ == seq![Driver::BladeRf],
    {
        let mut drivers: Vec<Driver> = Vec::new();
        drivers.push(Driver::BladeRf);
        assert(drivers@ =~= seq![Driver::BladeRf]);
        Registry { drivers }
    }

    /// Number of backends.
    pub fn len(&self) -> (n: usize)
        ensures
            n == self@.len(),
    {
        self.drivers.len()
    }

    /// The backend at position `i`.
    pub fn driver_at(&self, i: usize) -> (d: Driver)
        requires
            i < self@.len(),
        ensures
            d == self@[i as int],
    {
        self.drivers[i]
    }

    /// The backend that opens `filter` without discovery: `Some` for a
    /// filter that hands over a file descriptor, `None` for a filter that
    /// goes through discovery.
    pub fn direct(&self, filter: &Args) -> (r: Result<Option<Driver>, Error>)
        ensures
            r == direct_spec(self@, filter@),
    {
        match filter.get::<i32>("fd") {
            Ok(_) => match self.candidates(filter) {
                Ok(left) => {
                    if left.len() == 0 {
                        Err(Error::NotFound)
                    } else if left.len() == 1 {
                        Ok(Some(left[0]))
                    } else {
                        Err(Error::ValueError)
                    }
                },
                Err(_) => Err(Error::ValueError),
            },
            Err(_) => Ok(None),
        }
    }

    /// The backends to ask for `filter`: the one that its `driver` pair
    /// names, all of them without such a pair. A `driver` pair that names
    /// no driver fails with `ValueError`.
    pub fn candidates(&self, filter: &Args) -> (r: Result<Vec<Driver>, Error>)
        ensures
            match candidates_spec(self@, filter@) {
                Some(ds) => r is Ok && r->Ok_0@ == ds,
                None => r is Err && r->Err_0 == Error::ValueError,
            },
    {
        let wanted = filter.get::<Driver>("driver");
        match wanted {
            Ok(driver) => {
                let ghost text = lookup(filter@, "driver"@)->Some_0;
                let ghost keep = |d: Driver| d.tag() == text;
                let mut out: Vec<Driver> = Vec::new();
                let mut i: usize = 0;
                proof {
                    reveal(Seq::filter);
                    assert(self@.take(0) =~= Seq::<Driver>::empty());
                    assert(Seq::<Driver>::empty().filter(keep) =~= Seq::<Driver>::empty());
                }
                while i < self.drivers.len()
                    invariant
                        i <= self.drivers.len(),
                        driver.tag() == text,
                        keep == (|d: Driver| d.tag() == text),
                        out@ == self@.take(i as int).filter(keep),
                    decreases self.drivers.len() - i,
                {
                    let d = self.drivers[i];
                    proof {
                        reveal(Seq::filter);
                        assert(self@.take(i + 1).drop_last() =~= self@.take(i as int));
                        assert(self@.take(i + 1).last() == d);
                        lemma_tag_identifies(d, driver);
                    }
                    if d == driver {
                        out.push(d);
                    }
                    i = i + 1;
                }
                assert(self@.take(i as int) =~= self@);
                Ok(out)
            },
            Err(Error::NotFound) => {
                let mut out: Vec<Driver> = Vec::new();
                let mut i: usize = 0;
                while i < self.drivers.len()
                    invariant
                        i <= self.drivers.len(),
                        out@ == self@.take(i as int),
                    decreases self.drivers.len() - i,
                {
                    out.push(self.drivers[i]);
                    assert(self@.take(i + 1) =~= self@.take(i as int).push(self@[i as int]));
                    i = i + 1;
                }
                assert(self@.take(i as int) =~= self@);
                Ok(out)
            },
            Err(_) => Err(Error::ValueError),
        }
    }
}

/// Two drivers with one tag are one driver.
pub proof fn lemma_tag_identifies(a: Driver, b: Driver)
    ensures
        a.tag() == b.tag() <==> a == b,
{
}

} // verus!
