//! Device arguments: an ordered list of `key=value` pairs with unique keys,
//! written as `key1=value1, key2=value2`.

use crate::error::Error;
use crate::text::{
    chars_of, find, find_char, is_trimmed, join, lemma_find, lemma_find_at, lemma_join_front,
    lemma_join_push, lemma_split_join, lemma_split_pieces, lemma_trim_is_trimmed,
    lemma_trim_nonempty, lemma_trim_strips_front, lemma_trim_within, split, trim, trim_bounds,
};
use crate::value::ArgValue;
use vstd::prelude::*;

verus! {

/// The mathematical content of an argument list: pairs of key and value
/// in insertion order.
pub type Entries = Seq<(Seq<char>, Seq<char>)>;

/// Index of the first pair with key `k`, or `m.len()` if there is none.
pub open spec fn key_index(m: Entries, k: Seq<char>) -> int
    decreases m.len(),
{
    if m.len() == 0 {
        0
    } else if m[0].0 == k {
        0
    } else {
        1 + key_index(m.skip(1), k)
    }
}

/// Whether some pair has key `k`.
pub open spec fn has_key(m: Entries, k: Seq<char>) -> bool {
    key_index(m, k) < m.len()
}

/// The value stored under `k`.
pub open spec fn lookup(m: Entries, k: Seq<char>) -> Option<Seq<char>> {
    if has_key(m, k) {
        Some(m[key_index(m, k)].1)
    } else {
        None
    }
}

/// No key occurs twice.
pub open spec fn keys_distinct(m: Entries) -> bool {
    forall|i: int, j: int| 0 <= i < j < m.len() ==> (#[trigger] m[i]).0 != (#[trigger] m[j]).0
}

/// Insert or overwrite: an existing key keeps its position and takes the new
/// value, a new key goes to the end.
pub open spec fn upsert(m: Entries, k: Seq<char>, v: Seq<char>) -> Entries {
    if has_key(m, k) {
        m.update(key_index(m, k), (k, v))
    } else {
        m.push((k, v))
    }
}

/// `key_index` returns the position of the first pair with the key, or the length.
pub proof fn lemma_key_index(m: Entries, k: Seq<char>)
    ensures
        0 <= key_index(m, k) <= m.len(),
        forall|j: int| 0 <= j < key_index(m, k) ==> (#[trigger] m[j]).0 != k,
        key_index(m, k) < m.len() ==> m[key_index(m, k)].0 == k,
    decreases m.len(),
{
    if m.len() > 0 && m[0].0 != k {
        let t = m.skip(1);
        lemma_key_index(t, k);
        assert forall|j: int| 0 <= j < key_index(m, k) implies (#[trigger] m[j]).0 != k by {
            if j > 0 {
                assert(m[j] == t[j - 1]);
            }
        }
        if key_index(m, k) < m.len() {
            assert(m[key_index(m, k)] == t[key_index(t, k)]);
        }
    }
}

/// Any position that holds the first pair with the key is what `key_index` returns.
pub proof fn lemma_key_index_at(m: Entries, k: Seq<char>, i: int)
    requires
        0 <= i <= m.len(),
        forall|j: int| 0 <= j < i ==> (#[trigger] m[j]).0 != k,
        i < m.len() ==> m[i].0 == k,
    ensures
        key_index(m, k) == i,
{
    lemma_key_index(m, k);
    let f = key_index(m, k);
    if f < i {
        assert(m[f].0 == k);
    } else if f > i {
        assert(m[i].0 != k);
    }
}

/// Setting a key that the list does not hold appends the pair.
pub proof fn lemma_upsert_new(m: Entries, k: Seq<char>, v: Seq<char>)
    requires
        forall|j: int| 0 <= j < m.len() ==> (#[trigger] m[j]).0 != k,
    ensures
        upsert(m, k, v) == m.push((k, v)),
        lookup(upsert(m, k, v), k) == Some(v),
{
    lemma_key_index_at(m, k, m.len() as int);
    lemma_key_index_at(m.push((k, v)), k, m.len() as int);
}

/// A key is looked up at the first position that holds it.
pub proof fn lemma_lookup_at(m: Entries, k: Seq<char>, i: int)
    requires
        0 <= i < m.len(),
        m[i].0 == k,
        forall|j: int| 0 <= j < i ==> (#[trigger] m[j]).0 != k,
    ensures
        lookup(m, k) == Some(m[i].1),
{
    lemma_key_index_at(m, k, i);
}

/// A key that no pair holds is not found.
pub proof fn lemma_lookup_absent(m: Entries, k: Seq<char>)
    requires
        forall|j: int| 0 <= j < m.len() ==> (#[trigger] m[j]).0 != k,
    ensures
        lookup(m, k) is None,
{
    lemma_key_index_at(m, k, m.len() as int);
}

/// After a key is set, it is found with the new value, and every other key
/// is found as before.
pub proof fn lemma_upsert_lookup(m: Entries, k: Seq<char>, v: Seq<char>, other: Seq<char>)
    ensures
        lookup(upsert(m, k, v), k) == Some(v),
        other != k ==> lookup(upsert(m, k, v), other) == lookup(m, other),
        has_key(m, k) ==> upsert(m, k, v).len() == m.len(),
        !has_key(m, k) ==> upsert(m, k, v).len() == m.len() + 1,
{
    let r = upsert(m, k, v);
    let p = key_index(m, k);
    lemma_key_index(m, k);
    lemma_key_index(m, other);
    if has_key(m, k) {
        assert forall|j: int| 0 <= j < p implies (#[trigger] r[j]).0 != k by {
            assert(r[j] == m[j]);
        }
        lemma_key_index_at(r, k, p);
    } else {
        assert forall|j: int| 0 <= j < m.len() implies (#[trigger] r[j]).0 != k by {
            assert(r[j] == m[j]);
        }
        lemma_key_index_at(r, k, m.len() as int);
    }
    if other != k {
        let q = key_index(m, other);
        assert forall|j: int| 0 <= j < q implies (#[trigger] r[j]).0 != other by {
            assert(r[j].0 == m[j].0);
        }
        if q < m.len() {
            assert(r[q] == m[q]);
            lemma_key_index_at(r, other, q);
        } else {
            assert forall|j: int| 0 <= j < r.len() implies (#[trigger] r[j]).0 != other by {
                if j < m.len() {
                    assert(r[j].0 == m[j].0);
                }
            }
            lemma_key_index_at(r, other, r.len() as int);
        }
    }
}

/// `upsert` keeps the keys distinct.
pub proof fn lemma_upsert_distinct(m: Entries, k: Seq<char>, v: Seq<char>)
    requires
        keys_distinct(m),
    ensures
        keys_distinct(upsert(m, k, v)),
{
    lemma_key_index(m, k);
    let r = upsert(m, k, v);
    let p = key_index(m, k);
    assert forall|i: int, j: int| 0 <= i < j < r.len() implies (#[trigger] r[i]).0 != (
    #[trigger] r[j]).0 by {
        if has_key(m, k) {
            assert(r[i].0 == m[i].0);
            assert(r[j].0 == m[j].0);
        } else {
            if j == m.len() {
                assert(r[i] == m[i]);
            } else {
                assert(r[i] == m[i]);
                assert(r[j] == m[j]);
            }
        }
    }
}

/// One `key=value` segment: exactly one `=`, with key and value trimmed.
/// `None` for a segment with no `=` or with more than one.
pub open spec fn parse_segment(seg: Seq<char>) -> Option<(Seq<char>, Seq<char>)> {
    let i = find(seg, '=');
    if 0 <= i < seg.len() {
        let rest = seg.skip(i + 1);
        if find(rest, '=') < rest.len() {
            None
        } else {
            Some((trim(seg.take(i)), trim(rest)))
        }
    } else {
        None
    }
}

/// The segments applied in order on top of `acc`, a later one overwriting
/// an earlier one with the same key. `None` if any segment is malformed.
pub open spec fn fold_segments(segs: Seq<Seq<char>>, acc: Entries) -> Option<Entries>
    decreases segs.len(),
{
    if segs.len() == 0 {
        Some(acc)
    } else {
        match parse_segment(segs[0]) {
            Some((k, v)) => fold_segments(segs.skip(1), upsert(acc, k, v)),
            None => None,
        }
    }
}

/// What a filter text denotes. A blank text is the empty list; any other
/// text is split at commas, and every piece must be one `key=value` segment.
pub open spec fn parse_spec(s: Seq<char>) -> Option<Entries> {
    if trim(s).len() == 0 {
        Some(Entries::empty())
    } else {
        fold_segments(split(s, ','), Entries::empty())
    }
}

/// The text of one pair.
pub open spec fn pair_text(e: (Seq<char>, Seq<char>)) -> Seq<char> {
    e.0 + seq!['='] + e.1
}

/// The written form of a list: its pairs as `key=value`, separated by
/// a comma and a space.
pub open spec fn render(m: Entries) -> Seq<char> {
    join(m.map_values(|e: (Seq<char>, Seq<char>)| pair_text(e)), seq![',', ' '])
}

/// A key or value that survives writing and reading back: trimmed, and
/// free of the two delimiters.
pub open spec fn is_plain_text(t: Seq<char>) -> bool {
    is_trimmed(t) && !t.contains(',') && !t.contains('=')
}

/// A list whose keys are distinct and whose keys and values are all plain.
pub open spec fn is_plain(m: Entries) -> bool {
    &&& keys_distinct(m)
    &&& forall|i: int|
        0 <= i < m.len() ==> is_plain_text((#[trigger] m[i]).0) && is_plain_text(m[i].1)
}

/// The pieces that `render` puts between commas: the first pair as it is,
/// each later pair behind one space.
pub open spec fn pieces(m: Entries) -> Seq<Seq<char>> {
    Seq::new(
        m.len(),
        |i: int|
            if i == 0 {
                pair_text(m[i])
            } else {
                seq![' '] + pair_text(m[i])
            },
    )
}

/// `render` is its pieces joined by single commas.
proof fn lemma_render_pieces(m: Entries)
    ensures
        render(m) == join(pieces(m), seq![',']),
    decreases m.len(),
{
    let parts = m.map_values(|e: (Seq<char>, Seq<char>)| pair_text(e));
    let wide = seq![',', ' '];
    let thin = seq![','];
    if m.len() == 0 {
    } else if m.len() == 1 {
        assert(pieces(m)[0] == parts[0]);
    } else {
        let init = m.drop_last();
        lemma_render_pieces(init);
        assert(parts.drop_last() =~= init.map_values(|e: (Seq<char>, Seq<char>)| pair_text(e)));
        assert(pieces(m).drop_last() =~= pieces(init));
        assert(pieces(m).last() == seq![' '] + parts.last());
        assert(join(parts, wide) == join(parts.drop_last(), wide) + wide + parts.last());
        assert(join(pieces(m), thin) == join(pieces(init), thin) + thin + pieces(m).last());
        assert(join(parts.drop_last(), wide) + wide + parts.last() =~= join(pieces(init), thin)
            + thin + (seq![' '] + parts.last()));
    }
}

/// A piece of a plain list reads back as its pair.
proof fn lemma_piece_segment(pad: Seq<char>, k: Seq<char>, v: Seq<char>)
    requires
        pad == Seq::<char>::empty() || pad == seq![' '],
        is_plain_text(k),
        is_plain_text(v),
    ensures
        parse_segment(pad + pair_text((k, v))) == Some((k, v)),
        !(pad + pair_text((k, v))).contains(','),
{
    let seg = pad + pair_text((k, v));
    let at: int = (pad.len() + k.len()) as int;
    assert forall|j: int| 0 <= j < at implies seg[j] != '=' by {
        if j >= pad.len() {
            assert(seg[j] == k[j - pad.len()]);
            if k[j - pad.len()] == '=' {
                assert(k.contains('='));
            }
        } else {
            assert(seg[j] == pad[j]);
        }
    }
    assert(seg[at] == '=');
    lemma_find_at(seg, '=', at);
    let rest = seg.skip(at + 1);
    assert(rest =~= v);
    lemma_find(v, '=');
    assert(seg.take(at) =~= pad + k);
    lemma_trim_strips_front(pad, k);
    lemma_trim_strips_front(Seq::<char>::empty(), v);
    assert(Seq::<char>::empty() + v =~= v);
    if seg.contains(',') {
        let j = choose|j: int| 0 <= j < seg.len() && seg[j] == ',';
        if j < pad.len() {
            assert(seg[j] == pad[j]);
        } else if j < at {
            assert(seg[j] == k[j - pad.len()]);
            assert(k.contains(','));
        } else if j > at {
            assert(seg[j] == v[j - at - 1]);
            assert(v.contains(','));
        }
    }
}

/// Reading the pieces from position `i` on, on top of the first `i` pairs,
/// gives the whole list.
proof fn lemma_fold_pieces(m: Entries, i: int)
    requires
        is_plain(m),
        0 <= i <= m.len(),
    ensures
        fold_segments(pieces(m).skip(i), m.take(i)) == Some(m),
    decreases m.len() - i,
{
    let segs = pieces(m).skip(i);
    if i == m.len() {
        assert(m.take(i) =~= m);
    } else {
        let pad = if i == 0 {
            Seq::<char>::empty()
        } else {
            seq![' ']
        };
        let k = m[i].0;
        let v = m[i].1;
        assert(pair_text(m[i]) == pair_text((k, v)));
        assert(segs[0] =~= pad + pair_text((k, v)));
        lemma_piece_segment(pad, k, v);
        let acc = m.take(i);
        assert forall|j: int| 0 <= j < acc.len() implies (#[trigger] acc[j]).0 != k by {
            assert(acc[j] == m[j]);
        }
        lemma_key_index_at(acc, k, i);
        assert(upsert(acc, k, v) =~= m.take(i + 1));
        assert(segs.skip(1) =~= pieces(m).skip(i + 1));
        lemma_fold_pieces(m, i + 1);
    }
}

/// Writing a plain list and reading the text back gives the same list.
pub proof fn lemma_parse_render(m: Entries)
    requires
        is_plain(m),
    ensures
        parse_spec(render(m)) == Some(m),
{
    lemma_render_pieces(m);
    let s = render(m);
    let ps = pieces(m);
    if m.len() == 0 {
        assert(m =~= Entries::empty());
    } else {
        let k = m[0].0;
        let v = m[0].1;
        assert forall|j: int| 0 <= j < ps.len() implies !(#[trigger] ps[j]).contains(',') by {
            let pad = if j == 0 {
                Seq::<char>::empty()
            } else {
                seq![' ']
            };
            assert(pair_text(m[j]) == pair_text((m[j].0, m[j].1)));
            assert(ps[j] =~= pad + pair_text((m[j].0, m[j].1)));
            lemma_piece_segment(pad, m[j].0, m[j].1);
        }
        lemma_split_join(ps, ',');
        assert(ps.skip(0) =~= ps);
        assert(m.take(0) =~= Entries::empty());
        lemma_fold_pieces(m, 0);
        // the text holds `=`, so it is not blank
        assert(ps[0] == k + seq!['='] + v);
        if m.len() == 1 {
            assert(s == ps[0]);
        } else {
            lemma_join_front(ps, seq![',']);
        }
        assert(s[k.len() as int] == '=');
        lemma_trim_nonempty(s, k.len() as int);
    }
}

/// One more segment keeps a plain list plain.
proof fn lemma_segment_plain(acc: Entries, seg: Seq<char>)
    requires
        is_plain(acc),
        !seg.contains(','),
        parse_segment(seg) is Some,
    ensures
        is_plain(upsert(acc, parse_segment(seg)->Some_0.0, parse_segment(seg)->Some_0.1)),
{
    let i = find(seg, '=');
    lemma_find(seg, '=');
    let head = seg.take(i);
    let rest = seg.skip(i + 1);
    lemma_find(rest, '=');
    let k = trim(head);
    let v = trim(rest);
    lemma_trim_is_trimmed(head);
    lemma_trim_is_trimmed(rest);
    assert(!head.contains(',') && !head.contains('=')) by {
        if head.contains(',') || head.contains('=') {
            let j = choose|j: int| 0 <= j < head.len() && (head[j] == ',' || head[j] == '=');
            assert(seg[j] == head[j]);
        }
    }
    assert(!rest.contains(',')) by {
        if rest.contains(',') {
            let j = choose|j: int| 0 <= j < rest.len() && rest[j] == ',';
            assert(seg[j + i + 1] == rest[j]);
        }
    }
    if k.contains(',') {
        lemma_trim_within(head, ',');
    }
    if k.contains('=') {
        lemma_trim_within(head, '=');
    }
    if v.contains(',') {
        lemma_trim_within(rest, ',');
    }
    if v.contains('=') {
        lemma_trim_within(rest, '=');
    }
    lemma_upsert_distinct(acc, k, v);
    lemma_key_index(acc, k);
    let r = upsert(acc, k, v);
    assert forall|j: int| 0 <= j < r.len() implies is_plain_text((#[trigger] r[j]).0)
        && is_plain_text(r[j].1) by {
        if j < acc.len() && j != key_index(acc, k) {
            assert(r[j] == acc[j]);
        }
    }
}

/// Segments free of commas, read on top of a plain list, give a plain list.
proof fn lemma_fold_plain(segs: Seq<Seq<char>>, acc: Entries)
    requires
        is_plain(acc),
        forall|j: int| 0 <= j < segs.len() ==> !(#[trigger] segs[j]).contains(','),
        fold_segments(segs, acc) is Some,
    ensures
        is_plain(fold_segments(segs, acc)->Some_0),
    decreases segs.len(),
{
    if segs.len() > 0 {
        let p = parse_segment(segs[0])->Some_0;
        lemma_segment_plain(acc, segs[0]);
        let tail = segs.skip(1);
        assert forall|j: int| 0 <= j < tail.len() implies !(#[trigger] tail[j]).contains(',') by {
            assert(tail[j] == segs[j + 1]);
        }
        lemma_fold_plain(tail, upsert(acc, p.0, p.1));
    }
}

/// Whatever a text denotes is a plain list: distinct keys, trimmed keys and
/// values, no delimiter inside them.
pub proof fn lemma_parse_plain(s: Seq<char>)
    requires
        parse_spec(s) is Some,
    ensures
        is_plain(parse_spec(s)->Some_0),
{
    if trim(s).len() != 0 {
        lemma_split_pieces(s, ',');
        lemma_fold_plain(split(s, ','), Entries::empty());
    }
}

/// Round trip: for every text that parses, the written form of the parsed
/// list parses again, to the same list.
pub proof fn lemma_round_trip(s: Seq<char>)
    requires
        parse_spec(s) is Some,
    ensures
        parse_spec(render(parse_spec(s)->Some_0)) == parse_spec(s),
{
    lemma_parse_plain(s);
    lemma_parse_render(parse_spec(s)->Some_0);
}

/// An ordered list of `key=value` pairs. Keys are unique; a pair keeps the
/// position at which its key was first set.
#[derive(Debug, PartialEq, Eq)]
pub struct Args {
    entries: Vec<(String, String)>,
}

impl View for Args {
    type V = Entries;

    closed spec fn view(&self) -> Entries {
        Seq::new(self.entries.len() as nat, |i: int| (self.entries[i].0@, self.entries[i].1@))
    }
}

impl Default for Args {
    fn default() -> (r: Args)
        ensures
            r@ == Entries::empty(),
    {
        Args::new()
    }
}

impl Clone for Args {
    fn clone(&self) -> (r: Args)
        ensures
            r@ == self@,
    {
        proof {
            use_type_invariant(self);
        }
        let mut entries: Vec<(String, String)> = Vec::new();
        let mut i: usize = 0;
        while i < self.entries.len()
            invariant
                i <= self.entries.len(),
                entries@.len() == i,
                forall|j: int|
                    0 <= j < i ==> (#[trigger] entries@[j]).0@ == self.entries@[j].0@
                        && entries@[j].1@ == self.entries@[j].1@,
            decreases self.entries.len() - i,
        {
            entries.push((self.entries[i].0.clone(), self.entries[i].1.clone()));
            i = i + 1;
        }
        assert(Seq::new(entries.len() as nat, |j: int| (entries[j].0@, entries[j].1@)) =~= self@);
        Args { entries }
    }
}

impl Args {
    #[verifier::type_invariant]
    spec fn well_formed(self) -> bool {
        keys_distinct(self@)
    }

    /// The empty argument list.
    pub fn new() -> (r: Args)
        ensures
            r@ == Entries::empty(),
    {
        let r = Args { entries: Vec::new() };
        assert(r@ =~= Entries::empty());
        r
    }

    /// Number of pairs.
    pub fn len(&self) -> (n: usize)
        ensures
            n == self@.len(),
            keys_distinct(self@),
    {
        proof {
            use_type_invariant(self);
        }
        self.entries.len()
    }

    /// The key of the pair at position `i`.
    pub fn key_at(&self, i: usize) -> (k: &str)
        requires
            i < self@.len(),
        ensures
            k@ == self@[i as int].0,
    {
        self.entries[i].0.as_str()
    }

    /// The value of the pair at position `i`.
    pub fn value_at(&self, i: usize) -> (v: &str)
        requires
            i < self@.len(),
        ensures
            v@ == self@[i as int].1,
    {
        self.entries[i].1.as_str()
    }

    /// Position of the pair with key `key`, or `len()` if there is none.
    fn position(&self, key: &str) -> (i: usize)
        ensures
            i == key_index(self@, key@),
            i <= self@.len(),
    {
        let k = String::from_str(key);
        let mut i: usize = 0;
        while i < self.entries.len() && !(self.entries[i].0 == k)
            invariant
                i <= self.entries.len(),
                k@ == key@,
                forall|j: int| 0 <= j < i ==> (#[trigger] self@[j]).0 != key@,
            decreases self.entries.len() - i,
        {
            i = i + 1;
        }
        proof {
            lemma_key_index_at(self@, key@, i as int);
        }
        i
    }

    /// Whether a pair with key `key` exists.
    pub fn contains(&self, key: &str) -> (r: bool)
        ensures
            r == has_key(self@, key@),
    {
        self.position(key) < self.entries.len()
    }

    /// The value stored under `key`, as text.
    pub fn value(&self, key: &str) -> (r: Option<&str>)
        ensures
            match r {
                Some(v) => lookup(self@, key@) == Some(v@),
                None => lookup(self@, key@) is None,
            },
    {
        let i = self.position(key);
        if i < self.entries.len() {
            Some(self.entries[i].1.as_str())
        } else {
            None
        }
    }

    /// The value stored under `key`, read as a `T`.
    ///
    /// Fails with `NotFound` if the key is absent, and with `ValueError` if
    /// the stored text does not spell a `T`.
    pub fn get<T: ArgValue>(&self, key: &str) -> (r: Result<T, Error>)
        ensures
            match lookup(self@, key@) {
                None => r == Err::<T, Error>(Error::NotFound),
                Some(text) => if T::accepts(text) {
                    r is Ok && T::spells(text, r->Ok_0)
                } else {
                    r == Err::<T, Error>(Error::ValueError)
                },
            },
    {
        match self.value(key) {
            None => Err(Error::NotFound),
            Some(text) => match T::from_text(text) {
                Some(v) => Ok(v),
                None => Err(Error::ValueError),
            },
        }
    }

    /// Insert or overwrite: an existing key keeps its position and takes the
    /// new value, a new key is appended.
    pub fn set(&mut self, key: &str, value: &str)
        ensures
            final(self)@ == upsert(old(self)@, key@, value@),
            keys_distinct(final(self)@),
    {
        proof {
            use_type_invariant(&*self);
            lemma_upsert_distinct(self@, key@, value@);
        }
        let i = self.position(key);
        let pair = (String::from_str(key), String::from_str(value));
        let mut entries: Vec<(String, String)> = Vec::new();
        core::mem::swap(&mut self.entries, &mut entries);
        if i < entries.len() {
            entries.set(i, pair);
        } else {
            entries.push(pair);
        }
        assert(Seq::new(entries.len() as nat, |j: int| (entries[j].0@, entries[j].1@)) =~= upsert(
            old(self)@,
            key@,
            value@,
        ));
        core::mem::swap(&mut self.entries, &mut entries);
    }

    /// Read a filter text of the form `key1=value1, key2=value2`.
    ///
    /// A blank text gives the empty list. Otherwise every comma-separated
    /// piece must hold exactly one `=`; blanks around keys and values are
    /// dropped, and a repeated key keeps its first position and its last
    /// value. Any other text fails with `ValueError`.
    pub fn parse(s: &str) -> (r: Result<Args, Error>)
        ensures
            match parse_spec(s@) {
                Some(m) => r is Ok && r->Ok_0@ == m && keys_distinct(m),
                None => r == Err::<Args, Error>(Error::ValueError),
            },
    {
        let v = chars_of(s);
        let n = v.len();
        assert(v@.subrange(0, n as int) =~= s@);
        let (a, b) = trim_bounds(&v, 0, n);
        let mut args = Args::new();
        if a == b {
            return Ok(args);
        }
        let mut start: usize = 0;
        let mut done = false;
        assert(v@.skip(0) =~= v@);
        while !done
            invariant
                v@ == s@,
                trim(s@).len() != 0,
                n == v.len(),
                start <= n,
                keys_distinct(args@),
                done ==> fold_segments(split(s@, ','), Entries::empty()) == Some(args@),
                !done ==> fold_segments(split(s@, ','), Entries::empty()) == fold_segments(
                    split(v@.skip(start as int), ','),
                    args@,
                ),
            decreases n - start + (if done { 0int } else { 1int }),
        {
            let ghost rest = v@.skip(start as int);
            assert(v@.subrange(start as int, n as int) =~= rest);
            let end = find_char(&v, start, n, ',');
            let ghost seg = v@.subrange(start as int, end as int);
            let ghost tail = if end < n {
                split(v@.skip(end + 1), ',')
            } else {
                Seq::<Seq<char>>::empty()
            };
            proof {
                assert(rest.take(end - start) =~= seg);
                if end < n {
                    assert(rest.skip(end - start + 1) =~= v@.skip(end + 1));
                }
                lemma_find(rest, ',');
                assert(split(rest, ',') =~= seq![seg] + tail);
                assert((seq![seg] + tail).skip(1) =~= tail);
                assert((seq![seg] + tail)[0] == seg);
                assert(fold_segments(split(rest, ','), args@) == match parse_segment(seg) {
                    Some((k, v)) => fold_segments(tail, upsert(args@, k, v)),
                    None => None,
                });
                lemma_find(seg, '=');
            }
            let eq = find_char(&v, start, end, '=');
            if eq == end {
                return Err(Error::ValueError);
            }
            let eq2 = find_char(&v, eq + 1, end, '=');
            proof {
                assert(seg.skip(eq - start + 1) =~= v@.subrange(eq + 1, end as int));
                assert(seg.take(eq - start) =~= v@.subrange(start as int, eq as int));
                lemma_find(seg.skip(eq - start + 1), '=');
            }
            if eq2 < end {
                return Err(Error::ValueError);
            }
            let (ka, kb) = trim_bounds(&v, start, eq);
            let (va, vb) = trim_bounds(&v, eq + 1, end);
            let key = s.substring_char(ka, kb);
            let value = s.substring_char(va, vb);
            args.set(key, value);
            if end < n {
                start = end + 1;
            } else {
                done = true;
            }
        }
        Ok(args)
    }

    /// The written form: `key1=value1, key2=value2`, in insertion order.
    pub fn to_string(&self) -> (r: String)
        ensures
            r@ == render(self@),
    {
        let ghost parts = self@.map_values(|e: (Seq<char>, Seq<char>)| pair_text(e));
        let ghost sep = seq![',', ' '];
        let mut out = String::new();
        let mut i: usize = 0;
        proof {
            reveal_strlit("=");
            reveal_strlit(", ");
            assert(", "@ =~= sep);
            assert("="@ =~= seq!['=']);
            assert(parts.take(0) =~= Seq::<Seq<char>>::empty());
        }
        while i < self.entries.len()
            invariant
                i <= self.entries.len(),
                parts == self@.map_values(|e: (Seq<char>, Seq<char>)| pair_text(e)),
                sep == seq![',', ' '],
                ", "@ == sep,
                "="@ == seq!['='],
                out@ == join(parts.take(i as int), sep),
            decreases self.entries.len() - i,
        {
            let ghost before = out@;
            if i > 0 {
                out.append(", ");
            }
            out.append(self.entries[i].0.as_str());
            out.append("=");
            out.append(self.entries[i].1.as_str());
            proof {
                let done = parts.take(i as int);
                assert(parts.take(i + 1) =~= done.push(parts[i as int]));
                assert(parts[i as int] == pair_text(self@[i as int]));
                if i > 0 {
                    lemma_join_push(done, sep, parts[i as int]);
                    assert(out@ =~= before + sep + parts[i as int]);
                } else {
                    assert(out@ =~= parts[i as int]);
                }
            }
            i = i + 1;
        }
        assert(parts.take(i as int) =~= parts);
        out
    }
}

} // verus!
