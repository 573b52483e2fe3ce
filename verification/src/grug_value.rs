//! The tagged value model and the argument marshaler.
//!
//! An [`Arguments`] list owns the values of one call in positional order and
//! a deduplicating cache of string contents. Marshaling re-derives, from the
//! current values, one ABI-visible wrapper record per value; the wrapper's
//! address is modeled by [`RawAddr`](crate::RawAddr), which the embedding
//! layer turns into real pointers for the foreign call.

use vstd::prelude::*;

use crate::OpaqueGrugType;
use crate::RawAddr;

verus! {

/// A borrowed, shape-unchecked reference to caller-owned memory, carried as a
/// bare address. Caller and callee must agree on the referent's layout out of
/// band; the marshaler passes the address through untouched and never extends
/// the referent's lifetime.
#[derive(Clone, Copy, Debug, PartialEq, Eq)]
pub struct CustomValue {
    pub raw: usize,
}

impl CustomValue {
    /// Wrap a caller-supplied address.
    pub fn new(raw: usize) -> (r: Self)
        ensures
            r.raw == raw,
    {
        CustomValue { raw }
    }
}

/// One argument value: a primitive or an opaque custom referent.
#[derive(Debug, PartialEq, Eq)]
pub enum GrugValue {
    /// A UTF-8 string; marshaled through the list's string cache as a
    /// null-terminated buffer, so it must not contain an interior NUL.
    String(String),
    /// A 32-bit signed integer.
    I32(i32),
    /// A 32-bit float, carried as its bit pattern; the marshaler never
    /// computes with it, only takes its address.
    F32(u32),
    /// A boolean.
    Bool(bool),
    /// An opaque custom referent.
    Custom(CustomValue),
}

impl GrugValue {
    /// A custom value from a caller-supplied address.
    pub fn custom(raw: usize) -> (r: Self)
        ensures
            r matches GrugValue::Custom(c) && c.raw == raw,
    {
        GrugValue::Custom(CustomValue { raw })
    }
}

/// The string has no interior NUL, so it has a null-terminated buffer
/// representation.
pub open spec fn no_nul(s: Seq<char>) -> bool {
    forall|k: int| 0 <= k < s.len() ==> s[k] != '\0'
}

/// Every string among the values can be marshaled: none contains an interior
/// NUL. A value that breaks this is a programmer error the marshaler is not
/// designed to propagate at call time.
pub open spec fn marshalable(values: Seq<GrugValue>) -> bool {
    forall|i: int|
        0 <= i < values.len() ==> (#[trigger] values[i] matches GrugValue::String(s) ==> no_nul(s@))
}

/// No two cache slots hold the same content: the cache deduplicates by
/// content, so a content determines its slot.
pub open spec fn cache_distinct(cache: Seq<Seq<char>>) -> bool {
    forall|i: int, j: int|
        0 <= i < cache.len() && 0 <= j < cache.len() && i != j ==> cache[i] != cache[j]
}

/// Slot `i` of `out` is the correct marshaling of `values[i]` against the
/// string cache `cache`: a string points at a cache buffer holding exactly
/// its content, a primitive points at its own storage at position `i`, and a
/// custom value's address passes through unchanged.
pub open spec fn marshaled_slot(
    values: Seq<GrugValue>,
    cache: Seq<Seq<char>>,
    out: Seq<OpaqueGrugType>,
    i: int,
) -> bool {
    match values[i] {
        GrugValue::String(s) => exists|j: usize|
            (j as int) < cache.len() && #[trigger] cache[j as int] == s@ && out[i].raw == (
            RawAddr::StringBuf(j)),
        GrugValue::I32(_) => out[i].raw == (RawAddr::ValueSlot(i as usize)),
        GrugValue::F32(_) => out[i].raw == (RawAddr::ValueSlot(i as usize)),
        GrugValue::Bool(_) => out[i].raw == (RawAddr::ValueSlot(i as usize)),
        GrugValue::Custom(c) => out[i].raw == (RawAddr::Custom(c.raw)),
    }
}

/// `content` is the content of one of the string values in `values`: the
/// only kind of entry marshaling may add to the cache.
pub open spec fn cache_entry_from_values(values: Seq<GrugValue>, content: Seq<char>) -> bool {
    exists|i: int|
        0 <= i < values.len() && (#[trigger] values[i] matches GrugValue::String(s) && s@
            == content)
}

/// `out` is a correct marshaling of all of `values` against `cache`: one
/// wrapper per value, in positional order.
pub open spec fn marshaled(
    values: Seq<GrugValue>,
    cache: Seq<Seq<char>>,
    out: Seq<OpaqueGrugType>,
) -> bool {
    &&& out.len() == values.len()
    &&& forall|i: int| 0 <= i < values.len() ==> #[trigger] marshaled_slot(values, cache, out, i)
}

/// Arguments to one foreign call: the values in positional order, plus the
/// owned backing storage for marshaled strings. The raw arrays themselves are
/// not cached: they are re-derived by each [`Arguments::into_raw`] call, as
/// they are invalidated whenever the values change.
pub struct Arguments {
    /// The values, in the call's positional argument order.
    pub values: Vec<GrugValue>,
    /// Deduplicating cache of string contents, keyed by content. A string's
    /// position in this vector stands for the stable address of its
    /// null-terminated buffer; entries are never removed or reordered while
    /// the list is alive, so the address of a cached content never moves.
    pub stored_c_strings: Vec<String>,
}

impl Arguments {
    /// The contents of the string cache, in insertion order.
    pub open spec fn cache(&self) -> Seq<Seq<char>> {
        self.stored_c_strings@.map_values(|s: String| s@)
    }

    /// Validity: the cache holds each content at most once.
    pub open spec fn wf(&self) -> bool {
        cache_distinct(self.cache())
    }

    /// A new argument list owning `values`, in order, with an empty cache.
    pub fn new(values: Vec<GrugValue>) -> (r: Self)
        ensures
            r.values == values,
            r.cache() == Seq::<Seq<char>>::empty(),
            r.wf(),
    {
        let r = Arguments { values, stored_c_strings: Vec::new() };
        proof {
            assert(r.cache() =~= Seq::<Seq<char>>::empty());
        }
        r
    }

    /// An empty argument list.
    pub fn empty() -> (r: Self)
        ensures
            r.values@ == Seq::<GrugValue>::empty(),
            r.cache() == Seq::<Seq<char>>::empty(),
            r.wf(),
    {
        let r = Arguments { values: Vec::new(), stored_c_strings: Vec::new() };
        proof {
            assert(r.cache() =~= Seq::<Seq<char>>::empty());
        }
        r
    }

    /// Marshal the current values: derive one wrapper record per value, in
    /// positional order, growing the string cache as needed. Safe to call
    /// repeatedly; earlier cache slots keep their position and content, so a
    /// string's buffer address is stable across calls while the list lives.
    ///
    /// The flat pointer array the foreign call expects — one entry per value,
    /// each the address of that value's wrapper record — is the identity over
    /// the returned records, so the embedding layer rebuilds it at call time;
    /// like the records, it is invalidated by the next call or mutation and
    /// must not be retained.
    pub fn into_raw(&mut self) -> (r: Vec<OpaqueGrugType>)
        requires
            old(self).wf(),
            marshalable(old(self).values@),
        ensures
            final(self).wf(),
            final(self).values == old(self).values,
            old(self).cache().is_prefix_of(final(self).cache()),
            forall|j: int|
                old(self).cache().len() <= j < final(self).cache().len()
                    ==> cache_entry_from_values(old(self).values@, #[trigger] final(
                self).cache()[j]),
            marshaled(final(self).values@, final(self).cache(), r@),
    {
        let mut out: Vec<OpaqueGrugType> = Vec::new();
        let n = self.values.len();
        let mut idx: usize = 0;
        while idx < n
            invariant
                idx <= n,
                n == self.values.len(),
                self.values == old(self).values,
                self.wf(),
                old(self).cache().is_prefix_of(self.cache()),
                forall|j: int|
                    old(self).cache().len() <= j < self.cache().len() ==> cache_entry_from_values(
                        old(self).values@,
                        #[trigger] self.cache()[j],
                    ),
                out@.len() == idx,
                forall|i: int| 0 <= i < idx ==> #[trigger] marshaled_slot(
                    self.values@,
                    self.cache(),
                    out@,
                    i,
                ),
            decreases n - idx,
        {
            let ghost pre_cache = self.cache();
            let ghost pre_out = out@;
            match &self.values[idx] {
                GrugValue::String(s) => {
                    let j = match find_cached(&self.stored_c_strings, s) {
                        Some(j) => j,
                        None => {
                            let j = self.stored_c_strings.len();
                            self.stored_c_strings.push(s.clone());
                            proof {
                                assert(self.cache() =~= pre_cache.push(s@));
                                assert(forall|a: int|
                                    0 <= a < pre_cache.len() ==> pre_cache[a] != s@);
                                assert(cache_distinct(self.cache()));
                                assert(old(self).values@[idx as int] matches GrugValue::String(t)
                                    && t@ == s@);
                                assert(cache_entry_from_values(old(self).values@, s@));
                            }
                            j
                        },
                    };
                    out.push(OpaqueGrugType { raw: RawAddr::StringBuf(j) });
                    proof {
                        assert((j as int) < self.cache().len() && self.cache()[j as int] == s@
                            && out@[idx as int].raw == (RawAddr::StringBuf(j)));
                        assert(marshaled_slot(self.values@, self.cache(), out@, idx as int));
                    }
                },
                GrugValue::I32(_) => {
                    out.push(OpaqueGrugType { raw: RawAddr::ValueSlot(idx) });
                },
                GrugValue::F32(_) => {
                    out.push(OpaqueGrugType { raw: RawAddr::ValueSlot(idx) });
                },
                GrugValue::Bool(_) => {
                    out.push(OpaqueGrugType { raw: RawAddr::ValueSlot(idx) });
                },
                GrugValue::Custom(c) => {
                    out.push(OpaqueGrugType { raw: RawAddr::Custom(c.raw) });
                },
            }
            proof {
                assert(pre_cache.is_prefix_of(self.cache()));
                assert(old(self).cache().is_prefix_of(self.cache()));
                lemma_marshaled_slots_monotone(
                    self.values@,
                    pre_cache,
                    self.cache(),
                    pre_out,
                    out@,
                    idx as int,
                );
                assert(marshaled_slot(self.values@, self.cache(), out@, idx as int));
            }
            idx += 1;
        }
        out
    }
}

/// Find the slot of `s` in the cache, if its content is already cached.
fn find_cached(cache: &Vec<String>, s: &String) -> (r: Option<usize>)
    ensures
        match r {
            Some(j) => j < cache@.len() && cache@[j as int]@ == s@,
            None => forall|k: int| 0 <= k < cache@.len() ==> cache@[k]@ != s@,
        },
{
    let mut j: usize = 0;
    while j < cache.len()
        invariant
            j <= cache@.len(),
            forall|k: int| 0 <= k < j ==> cache@[k]@ != s@,
        decreases cache@.len() - j,
    {
        if cache[j] == *s {
            return Some(j);
        }
        j += 1;
    }
    None
}

/// Law (round trip): reading a marshaled slot back at the call site yields
/// the value that was marshaled, at its own position. A string slot points
/// at a cache buffer holding exactly the string's characters; a primitive
/// slot points at the storage of the value at the slot's own position, so
/// dereferencing it reads that value; a custom slot carries the caller's
/// address unchanged. Values and positional order are both preserved.
pub proof fn lemma_marshal_round_trip(
    values: Seq<GrugValue>,
    cache: Seq<Seq<char>>,
    out: Seq<OpaqueGrugType>,
    i: int,
)
    requires
        marshaled(values, cache, out),
        0 <= i < values.len(),
    ensures
        values[i] matches GrugValue::String(s) ==> (out[i].raw matches RawAddr::StringBuf(j) && (
        j as int) < cache.len() && cache[j as int] == s@),
        values[i] matches GrugValue::I32(_) ==> out[i].raw == (RawAddr::ValueSlot(i as usize)),
        values[i] matches GrugValue::F32(_) ==> out[i].raw == (RawAddr::ValueSlot(i as usize)),
        values[i] matches GrugValue::Bool(_) ==> out[i].raw == (RawAddr::ValueSlot(i as usize)),
        values[i] matches GrugValue::Custom(c) ==> out[i].raw == (RawAddr::Custom(c.raw)),
{
    assert(marshaled_slot(values, cache, out, i));
    match values[i] {
        GrugValue::String(s) => {
            let j = choose|j: usize|
                (j as int) < cache.len() && #[trigger] cache[j as int] == s@ && out[i].raw == (
                RawAddr::StringBuf(j));
            assert(out[i].raw == (RawAddr::StringBuf(j)));
        },
        _ => {},
    }
}

/// Law (deduplication): two equal string values anywhere in one marshaled
/// list share a single cached buffer — their slots carry the same address.
pub proof fn lemma_string_buffer_shared(
    values: Seq<GrugValue>,
    cache: Seq<Seq<char>>,
    out: Seq<OpaqueGrugType>,
    i: int,
    j: int,
)
    requires
        marshaled(values, cache, out),
        cache_distinct(cache),
        0 <= i < values.len(),
        0 <= j < values.len(),
        values[i] matches GrugValue::String(a) && (values[j] matches GrugValue::String(b) && a@
            == b@),
    ensures
        out[i].raw == out[j].raw,
{
    assert(marshaled_slot(values, cache, out, i));
    assert(marshaled_slot(values, cache, out, j));
    match (values[i], values[j]) {
        (GrugValue::String(a), GrugValue::String(b)) => {
            let ja = choose|ja: usize|
                (ja as int) < cache.len() && #[trigger] cache[ja as int] == a@ && out[i].raw == (
                RawAddr::StringBuf(ja));
            let jb = choose|jb: usize|
                (jb as int) < cache.len() && #[trigger] cache[jb as int] == b@ && out[j].raw == (
                RawAddr::StringBuf(jb));
            assert(cache[ja as int] == cache[jb as int]);
            assert(ja == jb);
        },
        _ => {
            assert(false);
        },
    }
}

/// Law (stability): a string's cached buffer keeps its address for as long
/// as the list lives. If a later marshaling's cache extends an earlier one
/// and deduplicates, equal string values marshal to the same address in both
/// outputs, even across separate marshaling calls.
pub proof fn lemma_string_buffer_stable(
    values1: Seq<GrugValue>,
    cache1: Seq<Seq<char>>,
    out1: Seq<OpaqueGrugType>,
    i: int,
    values2: Seq<GrugValue>,
    cache2: Seq<Seq<char>>,
    out2: Seq<OpaqueGrugType>,
    k: int,
)
    requires
        marshaled(values1, cache1, out1),
        marshaled(values2, cache2, out2),
        cache1.is_prefix_of(cache2),
        cache_distinct(cache2),
        0 <= i < values1.len(),
        0 <= k < values2.len(),
        values1[i] matches GrugValue::String(a) && (values2[k] matches GrugValue::String(b) && a@
            == b@),
    ensures
        out1[i].raw == out2[k].raw,
{
    assert(marshaled_slot(values1, cache1, out1, i));
    assert(marshaled_slot(values2, cache2, out2, k));
    match (values1[i], values2[k]) {
        (GrugValue::String(a), GrugValue::String(b)) => {
            let ja = choose|ja: usize|
                (ja as int) < cache1.len() && #[trigger] cache1[ja as int] == a@ && out1[i].raw
                    == (RawAddr::StringBuf(ja));
            let jb = choose|jb: usize|
                (jb as int) < cache2.len() && #[trigger] cache2[jb as int] == b@ && out2[k].raw
                    == (RawAddr::StringBuf(jb));
            assert(cache2[ja as int] == cache1[ja as int]);
            assert(cache2[ja as int] == cache2[jb as int]);
            assert(ja == jb);
        },
        _ => {
            assert(false);
        },
    }
}

/// Extending the cache with new slots at the end, or the output array with
/// new entries at the end, invalidates no marshaled slot: every slot correct
/// against the shorter cache and array stays correct against the longer ones.
pub proof fn lemma_marshaled_slots_monotone(
    values: Seq<GrugValue>,
    cache1: Seq<Seq<char>>,
    cache2: Seq<Seq<char>>,
    out1: Seq<OpaqueGrugType>,
    out2: Seq<OpaqueGrugType>,
    upto: int,
)
    requires
        cache1.is_prefix_of(cache2),
        upto <= out1.len(),
        upto <= out2.len(),
        forall|i: int| 0 <= i < upto ==> out2[i] == out1[i],
        forall|i: int| 0 <= i < upto ==> #[trigger] marshaled_slot(values, cache1, out1, i),
    ensures
        forall|i: int| 0 <= i < upto ==> #[trigger] marshaled_slot(values, cache2, out2, i),
{
    assert forall|i: int| 0 <= i < upto implies #[trigger] marshaled_slot(
        values,
        cache2,
        out2,
        i,
    ) by {
        assert(marshaled_slot(values, cache1, out1, i));
        assert(out2[i] == out1[i]);
        match values[i] {
            GrugValue::String(s) => {
                let j = choose|j: usize|
                    (j as int) < cache1.len() && #[trigger] cache1[j as int] == s@ && out1[i].raw
                        == (RawAddr::StringBuf(j));
                assert(cache2[j as int] == cache1[j as int]);
            },
            _ => {},
        }
    }
}

} // verus!
