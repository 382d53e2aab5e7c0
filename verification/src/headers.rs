//! Case-insensitive header names and values, and the ordered header map
//! that both requests and responses carry.
//!
//! A name is normalized to ASCII lower case when it is made; a value has
//! leading and trailing whitespace stripped. The map keeps entries in
//! insertion order (a re-inserted name keeps its position and takes the new
//! value), with names unique, so that rendering is reproducible.

use vstd::prelude::*;

use crate::bytes::{lower_seq, trim_seq, lower_vec, trim_vec, eq_bytes};

verus! {

/// A header name, held in its normalized (ASCII lower-case) form.
pub struct HeaderName {
    bytes: Vec<u8>,
}

/// A header value, held with surrounding whitespace stripped.
pub struct HeaderValue {
    bytes: Vec<u8>,
}

/// The error of a failed header name or value conversion. No conversion in
/// this crate currently fails, so no function ever produces it.
pub struct ConversionError;

/// A mapping from header names to values: entries in insertion order,
/// names unique and lower-cased.
pub struct HeaderMap {
    entries: Vec<(HeaderName, HeaderValue)>,
}

impl View for HeaderName {
    type V = Seq<u8>;

    closed spec fn view(&self) -> Seq<u8> {
        self.bytes@
    }
}

impl View for HeaderValue {
    type V = Seq<u8>;

    closed spec fn view(&self) -> Seq<u8> {
        self.bytes@
    }
}

impl View for HeaderMap {
    type V = Seq<(Seq<u8>, Seq<u8>)>;

    closed spec fn view(&self) -> Seq<(Seq<u8>, Seq<u8>)> {
        Seq::new(self.entries@.len(), |i: int| (self.entries@[i].0@, self.entries@[i].1@))
    }
}

/// The value stored under `key` in model `m`, if any. `key` is expected in
/// normalized form; names are unique, so the first match is the match.
pub open spec fn spec_get(m: Seq<(Seq<u8>, Seq<u8>)>, key: Seq<u8>) -> Option<Seq<u8>>
    decreases m.len(),
{
    if m.len() == 0 {
        None
    } else if m[0].0 == key {
        Some(m[0].1)
    } else {
        spec_get(m.drop_first(), key)
    }
}

/// Model `m` after storing `val` under `key`: an existing entry keeps its
/// position and takes the new value; a new name is appended.
pub open spec fn spec_insert(
    m: Seq<(Seq<u8>, Seq<u8>)>,
    key: Seq<u8>,
    val: Seq<u8>,
) -> Seq<(Seq<u8>, Seq<u8>)>
    decreases m.len(),
{
    if m.len() == 0 {
        seq![(key, val)]
    } else if m[0].0 == key {
        seq![(key, val)] + m.drop_first()
    } else {
        seq![m[0]] + spec_insert(m.drop_first(), key, val)
    }
}

/// Well-formedness of a header-map model: every name is in normalized form
/// and no name repeats.
pub open spec fn wf(m: Seq<(Seq<u8>, Seq<u8>)>) -> bool {
    &&& forall|i: int| 0 <= i < m.len() ==> #[trigger] m[i].0 == lower_seq(m[i].0)
    &&& forall|i: int, j: int| 0 <= i < j < m.len() ==> m[i].0 != m[j].0
}

/// Lower-casing is idempotent.
pub proof fn lemma_lower_idempotent(s: Seq<u8>)
    ensures
        lower_seq(lower_seq(s)) == lower_seq(s),
{
    assert(lower_seq(lower_seq(s)) =~= lower_seq(s));
}

/// What was just inserted is found.
pub proof fn lemma_get_insert_same(m: Seq<(Seq<u8>, Seq<u8>)>, key: Seq<u8>, val: Seq<u8>)
    ensures
        spec_get(spec_insert(m, key, val), key) == Some(val),
    decreases m.len(),
{
    if m.len() > 0 && m[0].0 != key {
        lemma_get_insert_same(m.drop_first(), key, val);
        assert(spec_insert(m, key, val).drop_first() =~= spec_insert(m.drop_first(), key, val));
    }
}

/// Inserting one name leaves every other name's entry alone.
pub proof fn lemma_get_insert_other(
    m: Seq<(Seq<u8>, Seq<u8>)>,
    key: Seq<u8>,
    val: Seq<u8>,
    other: Seq<u8>,
)
    requires
        other != key,
    ensures
        spec_get(spec_insert(m, key, val), other) == spec_get(m, other),
    decreases m.len(),
{
    if m.len() == 0 {
        assert(spec_insert(m, key, val)[0] == (key, val));
        assert(spec_insert(m, key, val).drop_first() =~= m);
    } else if m[0].0 == key {
        assert(spec_insert(m, key, val)[0] == (key, val));
        assert(spec_insert(m, key, val).drop_first() =~= m.drop_first());
    } else {
        lemma_get_insert_other(m.drop_first(), key, val, other);
        assert(spec_insert(m, key, val)[0] == m[0]);
        assert(spec_insert(m, key, val).drop_first() =~= spec_insert(m.drop_first(), key, val));
    }
}

/// Insertion of a normalized name preserves well-formedness.
pub proof fn lemma_insert_wf(m: Seq<(Seq<u8>, Seq<u8>)>, key: Seq<u8>, val: Seq<u8>)
    requires
        wf(m),
        key == lower_seq(key),
    ensures
        wf(spec_insert(m, key, val)),
    decreases m.len(),
{
    if m.len() == 0 {
    } else if m[0].0 == key {
        let r = spec_insert(m, key, val);
        assert forall|i: int, j: int| 0 <= i < j < r.len() implies r[i].0 != r[j].0 by {
            assert(r[i] == m[i] || i == 0);
            assert(r[j] == m[j]);
        }
    } else {
        assert(wf(m.drop_first())) by {
            assert(forall|i: int|
                0 <= i < m.drop_first().len() ==> m.drop_first()[i] == m[i + 1]);
        }
        lemma_insert_wf(m.drop_first(), key, val);
        let r = spec_insert(m, key, val);
        let rr = spec_insert(m.drop_first(), key, val);
        assert forall|i: int| 0 <= i < r.len() implies #[trigger] r[i].0 == lower_seq(r[i].0) by {
            if i > 0 {
                assert(r[i] == rr[i - 1]);
            }
        }
        assert forall|i: int, j: int| 0 <= i < j < r.len() implies r[i].0 != r[j].0 by {
            if i == 0 {
                assert(r[j] == rr[j - 1]);
                lemma_insert_first_distinct(m.drop_first(), key, val, m[0].0);
            } else {
                assert(r[i] == rr[i - 1]);
                assert(r[j] == rr[j - 1]);
            }
        }
    }
}

/// A name absent from `m` and different from `key` is absent from the
/// insertion's result as well (name-level, for the uniqueness argument).
proof fn lemma_insert_first_distinct(
    m: Seq<(Seq<u8>, Seq<u8>)>,
    key: Seq<u8>,
    val: Seq<u8>,
    name: Seq<u8>,
)
    requires
        name != key,
        forall|i: int| 0 <= i < m.len() ==> m[i].0 != name,
    ensures
        forall|i: int|
            0 <= i < spec_insert(m, key, val).len() ==> spec_insert(m, key, val)[i].0 != name,
    decreases m.len(),
{
    if m.len() == 0 {
    } else if m[0].0 == key {
        assert(forall|i: int|
            0 <= i < m.drop_first().len() ==> m.drop_first()[i] == m[i + 1]);
    } else {
        assert(forall|i: int|
            0 <= i < m.drop_first().len() ==> m.drop_first()[i] == m[i + 1]);
        lemma_insert_first_distinct(m.drop_first(), key, val, name);
        let r = spec_insert(m, key, val);
        let rr = spec_insert(m.drop_first(), key, val);
        assert forall|i: int| 0 <= i < r.len() implies r[i].0 != name by {
            if i > 0 {
                assert(r[i] == rr[i - 1]);
            }
        }
    }
}

/// A name that lookup finds stands, with its value, at some position.
pub proof fn lemma_get_some_position(m: Seq<(Seq<u8>, Seq<u8>)>, key: Seq<u8>)
    requires
        spec_get(m, key) is Some,
    ensures
        exists|i: int| 0 <= i < m.len() && m[i] == (key, spec_get(m, key)->0),
    decreases m.len(),
{
    if m[0].0 == key {
        assert(m[0] == (key, spec_get(m, key)->0));
    } else {
        lemma_get_some_position(m.drop_first(), key);
        let i = choose|i: int|
            0 <= i < m.drop_first().len() && m.drop_first()[i] == (key, spec_get(m, key)->0);
        assert(m[i + 1] == (key, spec_get(m, key)->0));
    }
}

/// Case-insensitive lookup: two names that differ only in ASCII case are
/// the same key, so they retrieve the same entry from any map.
pub proof fn lemma_get_case_insensitive(
    m: Seq<(Seq<u8>, Seq<u8>)>,
    n1: Seq<u8>,
    n2: Seq<u8>,
)
    requires
        lower_seq(n1) == lower_seq(n2),
    ensures
        spec_get(m, lower_seq(n1)) == spec_get(m, lower_seq(n2)),
{
}

impl HeaderName {
    /// Normalize a raw name to lower case.
    pub fn new(raw: &Vec<u8>) -> (r: HeaderName)
        ensures
            r@ == lower_seq(raw@),
    {
        HeaderName { bytes: lower_vec(raw) }
    }

    /// The normalized bytes of the name.
    pub fn get(&self) -> (r: &Vec<u8>)
        ensures
            r@ == self@,
    {
        &self.bytes
    }
}

impl HeaderValue {
    /// Trim a raw value.
    pub fn new(raw: &Vec<u8>) -> (r: HeaderValue)
        ensures
            r@ == trim_seq(raw@),
    {
        HeaderValue { bytes: trim_vec(raw) }
    }

    /// The trimmed bytes of the value.
    pub fn get(&self) -> (r: &Vec<u8>)
        ensures
            r@ == self@,
    {
        &self.bytes
    }
}

impl HeaderMap {
    /// An empty map.
    pub fn new() -> (r: HeaderMap)
        ensures
            r@ == Seq::<(Seq<u8>, Seq<u8>)>::empty(),
            wf(r@),
    {
        let r = HeaderMap { entries: Vec::new() };
        assert(r@ =~= Seq::<(Seq<u8>, Seq<u8>)>::empty());
        r
    }

    /// Store `value` under `name`; the name is lower-cased and the value
    /// trimmed first, and an existing entry for the name is overwritten.
    pub fn insert(&mut self, name: &Vec<u8>, value: &Vec<u8>)
        requires
            wf(old(self)@),
        ensures
            final(self)@ == spec_insert(old(self)@, lower_seq(name@), trim_seq(value@)),
            wf(final(self)@),
    {
        let key = HeaderName::new(name);
        let val = HeaderValue::new(value);
        proof {
            lemma_lower_idempotent(name@);
            lemma_insert_wf(old(self)@, lower_seq(name@), trim_seq(value@));
        }
        let mut i: usize = 0;
        while i < self.entries.len()
            invariant
                self == old(self),
                wf(old(self)@),
                i <= self.entries@.len(),
                forall|j: int| 0 <= j < i ==> old(self)@[j].0 != lower_seq(name@),
                key@ == lower_seq(name@),
                val@ == trim_seq(value@),
            decreases self.entries@.len() - i,
        {
            if eq_bytes(self.entries[i].0.get(), key.get()) {
                self.entries[i] = (key, val);
                proof {
                    lemma_insert_prefix_match(old(self)@, lower_seq(name@), trim_seq(value@),
                        i as int);
                    assert(self@ =~= spec_insert(old(self)@, lower_seq(name@), trim_seq(value@)));
                    lemma_lower_idempotent(name@);
                    lemma_insert_wf(old(self)@, lower_seq(name@), trim_seq(value@));
                }
                return ;
            }
            i = i + 1;
        }
        self.entries.push((key, val));
        proof {
            lemma_insert_absent_appends(old(self)@, lower_seq(name@), trim_seq(value@));
            assert(self@ =~= old(self)@.push((lower_seq(name@), trim_seq(value@))));
        }
    }

    /// Look `name` up, case-insensitively.
    pub fn get(&self, name: &Vec<u8>) -> (r: Option<&Vec<u8>>)
        ensures
            (match r {
                Some(v) => spec_get(self@, lower_seq(name@)) == Some(v@),
                None => spec_get(self@, lower_seq(name@)) is None,
            }),
    {
        let key = lower_vec(name);
        let mut i: usize = 0;
        while i < self.entries.len()
            invariant
                i <= self.entries@.len(),
                forall|j: int| 0 <= j < i ==> self@[j].0 != lower_seq(name@),
                key@ == lower_seq(name@),
            decreases self.entries@.len() - i,
        {
            if eq_bytes(self.entries[i].0.get(), &key) {
                proof {
                    lemma_get_at_first_match(self@, lower_seq(name@), i as int);
                }
                return Some(self.entries[i].1.get());
            }
            i = i + 1;
        }
        proof {
            lemma_get_absent(self@, lower_seq(name@));
        }
        None
    }

    /// How many entries the map holds.
    pub fn len(&self) -> (r: usize)
        ensures
            r == self@.len(),
    {
        self.entries.len()
    }

    /// The name of the entry at position `i` (insertion order).
    pub fn name_at(&self, i: usize) -> (r: &Vec<u8>)
        requires
            i < self@.len(),
        ensures
            r@ == self@[i as int].0,
    {
        self.entries[i].0.get()
    }

    /// The value of the entry at position `i` (insertion order).
    pub fn value_at(&self, i: usize) -> (r: &Vec<u8>)
        requires
            i < self@.len(),
        ensures
            r@ == self@[i as int].1,
    {
        self.entries[i].1.get()
    }
}

/// When the first match with `key` is at position `i`, insertion updates
/// exactly that position.
proof fn lemma_insert_prefix_match(
    m: Seq<(Seq<u8>, Seq<u8>)>,
    key: Seq<u8>,
    val: Seq<u8>,
    i: int,
)
    requires
        0 <= i < m.len(),
        m[i].0 == key,
        forall|j: int| 0 <= j < i ==> m[j].0 != key,
    ensures
        spec_insert(m, key, val) == m.update(i, (key, val)),
    decreases m.len(),
{
    if i == 0 {
        assert(spec_insert(m, key, val) =~= m.update(0, (key, val)));
    } else {
        assert(forall|j: int|
            0 <= j < m.drop_first().len() ==> m.drop_first()[j] == m[j + 1]);
        lemma_insert_prefix_match(m.drop_first(), key, val, i - 1);
        assert(spec_insert(m, key, val) =~= m.update(i, (key, val)));
    }
}

/// When `key` is absent, insertion appends.
proof fn lemma_insert_absent_appends(m: Seq<(Seq<u8>, Seq<u8>)>, key: Seq<u8>, val: Seq<u8>)
    requires
        forall|j: int| 0 <= j < m.len() ==> m[j].0 != key,
    ensures
        spec_insert(m, key, val) == m.push((key, val)),
    decreases m.len(),
{
    if m.len() > 0 {
        assert(forall|j: int|
            0 <= j < m.drop_first().len() ==> m.drop_first()[j] == m[j + 1]);
        lemma_insert_absent_appends(m.drop_first(), key, val);
    }
    assert(spec_insert(m, key, val) =~= m.push((key, val)));
}

/// When the first match with `key` is at position `i`, lookup returns that
/// entry's value.
proof fn lemma_get_at_first_match(m: Seq<(Seq<u8>, Seq<u8>)>, key: Seq<u8>, i: int)
    requires
        0 <= i < m.len(),
        m[i].0 == key,
        forall|j: int| 0 <= j < i ==> m[j].0 != key,
    ensures
        spec_get(m, key) == Some(m[i].1),
    decreases m.len(),
{
    if i > 0 {
        assert(forall|j: int|
            0 <= j < m.drop_first().len() ==> m.drop_first()[j] == m[j + 1]);
        lemma_get_at_first_match(m.drop_first(), key, i - 1);
    }
}

/// When `key` matches no entry, lookup finds nothing.
proof fn lemma_get_absent(m: Seq<(Seq<u8>, Seq<u8>)>, key: Seq<u8>)
    requires
        forall|j: int| 0 <= j < m.len() ==> m[j].0 != key,
    ensures
        spec_get(m, key) is None,
    decreases m.len(),
{
    if m.len() > 0 {
        assert(forall|j: int|
            0 <= j < m.drop_first().len() ==> m.drop_first()[j] == m[j + 1]);
        lemma_get_absent(m.drop_first(), key);
    }
}

} // verus!
