//! The synthetic data model and its construction from a random source.
//!
//! Floating-point fields are held as fixed-point fractions of `[0, 1)`: the
//! value of `DetailedThing::value` is `value / 2^24` and the value of each
//! coordinate is `c / 2^53`, all of which are exact in their float types.
use vstd::prelude::*;
use crate::random::{
    all_alphanumeric, any_i16, any_i32, any_u32, any_u64, any_u8, below, coin, is_product_in,
    rand_string, rand_string_of_len, rand_text, RandomSource,
};

verus! {

/// The kind of file system entry a `Stuff` is about.
#[derive(Clone, Copy, Debug, PartialEq, Eq, Structural)]
pub enum Condition {
    Any,
    Directory,
    File,
    TextFile,
    BinaryFile,
}

impl Default for Condition {
    fn default() -> (r: Condition)
        ensures
            r == Condition::Any,
    {
        Condition::Any
    }
}

impl Condition {
    /// The conditions in their declared order.
    pub open spec fn spec_nth(i: int) -> Condition {
        if i == 0 {
            Condition::Any
        } else if i == 1 {
            Condition::Directory
        } else if i == 2 {
            Condition::File
        } else if i == 3 {
            Condition::TextFile
        } else {
            Condition::BinaryFile
        }
    }

    /// The `i`-th of the five conditions, in their declared order.
    pub fn nth(i: usize) -> (r: Condition)
        requires
            i < 5,
        ensures
            r == Condition::spec_nth(i as int),
    {
        if i == 0 {
            Condition::Any
        } else if i == 1 {
            Condition::Directory
        } else if i == 2 {
            Condition::File
        } else if i == 3 {
            Condition::TextFile
        } else {
            Condition::BinaryFile
        }
    }
}

/// Whether `s` has the shape of a `rand_string` result.
pub open spec fn is_rand_string(s: Seq<char>) -> bool {
    is_product_in(s.len() as int, 3, 8, 1, 12) && all_alphanumeric(s)
}

/// Whether `s` has the shape of a `rand_text` result over `charset`.
pub open spec fn is_rand_text(s: Seq<char>, charset: Seq<char>) -> bool {
    &&& is_product_in(s.len() as int, 3, 25, 8, 25)
    &&& forall|i: int| 0 <= i < s.len() ==> charset.contains(#[trigger] s[i])
}

/// One fraction step of `DetailedThing::value`: values are `value / VALUE_SCALE`.
pub const VALUE_SCALE: u32 = 0x100_0000;

/// One fraction step of a coordinate: values are `c / COORD_SCALE`.
pub const COORD_SCALE: u64 = 0x20_0000_0000_0000;

#[derive(Debug)]
pub struct DetailedThing {
    pub key: String,
    /// A fraction of `[0, 1)` in steps of `1 / VALUE_SCALE`.
    pub value: u32,
    /// Two fractions of `[0, 1)` in steps of `1 / COORD_SCALE`.
    pub coords: (u64, u64),
    pub cost: Option<u8>,
    pub text: String,
}

impl DetailedThing {
    /// What holds of every generated `DetailedThing` over `charset`.
    pub open spec fn generated(&self, charset: Seq<char>) -> bool {
        &&& is_rand_string(self.key@)
        &&& self.value < VALUE_SCALE
        &&& self.coords.0 < COORD_SCALE
        &&& self.coords.1 < COORD_SCALE
        &&& is_rand_text(self.text@, charset)
    }

    pub fn new(r: &mut RandomSource) -> (d: DetailedThing)
        requires
            old(r).wf(),
        ensures
            final(r).charset@ == old(r).charset@,
            d.generated(old(r).charset@),
    {
        let cost = if coin(&mut r.rng) {
            Some(any_u8(&mut r.rng))
        } else {
            None
        };
        let text = rand_text(r);
        let u0 = any_u64(&mut r.rng);
        let u1 = any_u64(&mut r.rng);
        let c0 = u0 >> 11u64;
        let c1 = u1 >> 11u64;
        assert(u0 >> 11u64 < 0x20_0000_0000_0000u64) by (bit_vector);
        assert(u1 >> 11u64 < 0x20_0000_0000_0000u64) by (bit_vector);
        let key = rand_string(r);
        let u = any_u32(&mut r.rng);
        let value = u >> 8u32;
        assert(u >> 8u32 < 0x100_0000u32) by (bit_vector);
        DetailedThing { key, value, coords: (c0, c1), cost, text }
    }
}

/// A value that encodes without a tag: a plain string or a detailed record.
#[derive(Debug)]
pub enum VarThing {
    Simple(String),
    Detailed(DetailedThing),
}

impl VarThing {
    /// What holds of every generated `VarThing` over `charset`.
    pub open spec fn generated(&self, charset: Seq<char>) -> bool {
        match self {
            VarThing::Simple(s) => is_rand_string(s@),
            VarThing::Detailed(d) => d.generated(charset),
        }
    }

    pub fn new(r: &mut RandomSource) -> (v: VarThing)
        requires
            old(r).wf(),
        ensures
            final(r).charset@ == old(r).charset@,
            v.generated(old(r).charset@),
    {
        if coin(&mut r.rng) {
            VarThing::Simple(rand_string(r))
        } else {
            VarThing::Detailed(DetailedThing::new(r))
        }
    }
}

#[derive(Debug)]
pub struct Bidule {
    pub id: String,
    pub numbers: Vec<i32>,
}

impl Bidule {
    /// What holds of every generated `Bidule`.
    pub open spec fn generated(&self) -> bool {
        &&& self.id@.len() == 10
        &&& all_alphanumeric(self.id@)
        &&& self.numbers@.len() == 20
    }

    pub fn new(r: &mut RandomSource) -> (b: Bidule)
        ensures
            final(r).charset@ == old(r).charset@,
            b.generated(),
    {
        let id = rand_string_of_len(r, 10);
        let mut numbers: Vec<i32> = Vec::new();
        let mut i: usize = 0;
        while i < 20
            invariant
                i <= 20,
                numbers@.len() == i,
                r.charset@ == old(r).charset@,
            decreases 20 - i,
        {
            numbers.push(any_i32(&mut r.rng));
            i = i + 1;
        }
        Bidule { id, numbers }
    }
}

#[derive(Debug)]
pub struct Stuff {
    pub name: Option<String>,
    pub quantity: u16,
    pub var_thing: Option<VarThing>,
    pub good: Option<bool>,
    pub tags: Vec<String>,
    pub condition: Condition,
    pub x: i16,
}

impl Stuff {
    /// What holds of every generated `Stuff` over `charset`.
    pub open spec fn generated(&self, charset: Seq<char>) -> bool {
        &&& (self.name matches Some(n) ==> is_rand_string(n@))
        &&& 3 <= self.quantity < 500
        &&& (self.var_thing matches Some(v) ==> v.generated(charset))
        &&& 5 <= self.tags@.len() < 15
        &&& forall|i: int|
            0 <= i < self.tags@.len() ==> (#[trigger] self.tags@[i])@.len() == 4
                && all_alphanumeric(self.tags@[i]@)
    }

    pub fn new(r: &mut RandomSource) -> (s: Stuff)
        requires
            old(r).wf(),
        ensures
            final(r).charset@ == old(r).charset@,
            s.generated(old(r).charset@),
    {
        let var_thing = if coin(&mut r.rng) {
            Some(VarThing::new(r))
        } else {
            None
        };
        let good = if coin(&mut r.rng) {
            Some(coin(&mut r.rng))
        } else {
            None
        };
        let n = below(&mut r.rng, 5, 15);
        let mut tags: Vec<String> = Vec::new();
        let mut i: usize = 0;
        while i < n
            invariant
                i <= n,
                tags@.len() == i,
                r.charset@ == old(r).charset@,
                forall|j: int|
                    0 <= j < tags@.len() ==> (#[trigger] tags@[j])@.len() == 4
                        && all_alphanumeric(tags@[j]@),
            decreases n - i,
        {
            tags.push(rand_string_of_len(r, 4));
            i = i + 1;
        }
        let condition = Condition::nth(below(&mut r.rng, 0, 5));
        let x = any_i16(&mut r.rng);
        let name = if coin(&mut r.rng) {
            Some(rand_string(r))
        } else {
            None
        };
        let quantity = below(&mut r.rng, 3, 500) as u16;
        Stuff { name, quantity, good, tags, var_thing, condition, x }
    }
}

/// Whether no two entries of `m` have the same key.
pub open spec fn keys_unique(m: Seq<(String, Stuff)>) -> bool {
    forall|i: int, j: int| 0 <= i < j < m.len() ==> m[i].0@ != m[j].0@
}

/// Whether some entry of `m` has the key `k`.
pub open spec fn has_key(m: Seq<(String, Stuff)>, k: Seq<char>) -> bool {
    exists|i: int| 0 <= i < m.len() && (#[trigger] m[i]).0@ == k
}

/// Sets the value of `key` in the map `m`: an entry with that key has its value
/// replaced, otherwise the entry is added at the end.
pub fn insert_stuff(m: &mut Vec<(String, Stuff)>, key: String, value: Stuff)
    requires
        keys_unique(old(m)@),
    ensures
        keys_unique(final(m)@),
        forall|k: Seq<char>| #[trigger] has_key(final(m)@, k) == (has_key(old(m)@, k) || k == key@),
        has_key(old(m)@, key@) ==> final(m)@.len() == old(m)@.len(),
        !has_key(old(m)@, key@) ==> final(m)@ == old(m)@.push((key, value)),
        forall|i: int|
            0 <= i < old(m)@.len() ==> (#[trigger] final(m)@[i]).0@ == old(m)@[i].0@ && (
            old(m)@[i].0@ == key@ ==> final(m)@[i].1 == value) && (old(m)@[i].0@ != key@
                ==> final(m)@[i] == old(m)@[i]),
{
    let mut i: usize = 0;
    while i < m.len()
        invariant
            i <= m@.len(),
            m@ == old(m)@,
            keys_unique(m@),
            forall|j: int| 0 <= j < i ==> (#[trigger] m@[j]).0@ != key@,
        decreases m@.len() - i,
    {
        if m[i].0 == key {
            let ghost prev = m@;
            assert(prev[i as int].0@ == key@);
            m.set(i, (key, value));
            assert forall|j: int| 0 <= j < m@.len() implies (#[trigger] m@[j]).0@ == prev[j].0@ by {
                if j != i {
                    assert(m@[j] == prev[j]);
                }
            }
            assert(keys_unique(prev));
            assert forall|a: int, b: int| 0 <= a < b < m@.len() implies m@[a].0@ != m@[b].0@ by {
                assert(m@[a].0@ == prev[a].0@);
                assert(m@[b].0@ == prev[b].0@);
                assert(prev[a].0@ != prev[b].0@);
            }
            assert forall|j: int| 0 <= j < prev.len() && prev[j].0@ == key@ implies j == i by {
                if j != i {
                    assert(prev[j].0@ != prev[i as int].0@);
                }
            }
            assert forall|k: Seq<char>| #[trigger] has_key(m@, k) == (has_key(prev, k) || k == prev[i as int].0@) by {
                if has_key(m@, k) {
                    let j = choose|j: int| 0 <= j < m@.len() && (#[trigger] m@[j]).0@ == k;
                    assert(prev[j].0@ == k);
                }
                if has_key(prev, k) {
                    let j = choose|j: int| 0 <= j < prev.len() && (#[trigger] prev[j]).0@ == k;
                    assert(m@[j].0@ == k);
                }
                if k == prev[i as int].0@ {
                    assert(m@[i as int].0@ == k);
                }
            }
            return;
        }
        i = i + 1;
    }
    let ghost prev = m@;
    let ghost kv = key@;
    m.push((key, value));
    assert forall|k: Seq<char>| #[trigger] has_key(m@, k) == (has_key(prev, k) || k == kv) by {
        if has_key(m@, k) {
            let j = choose|j: int| 0 <= j < m@.len() && (#[trigger] m@[j]).0@ == k;
            if j < prev.len() {
                assert(prev[j].0@ == k);
            }
        }
        if has_key(prev, k) {
            let j = choose|j: int| 0 <= j < prev.len() && (#[trigger] prev[j]).0@ == k;
            assert(m@[j].0@ == k);
        }
        if k == kv {
            assert(m@[prev.len() as int].0@ == k);
        }
    }
}

/// Whether the map `m` can come from inserting the keys `drawn`, in between
/// 1500 and 1800 draws: it holds exactly the drawn keys, one entry for each
/// draw when no key was drawn twice.
pub open spec fn stuff_drawn_from(m: Seq<(String, Stuff)>, drawn: Seq<Seq<char>>) -> bool {
    &&& 1500 <= drawn.len() < 1800
    &&& forall|k: Seq<char>| #[trigger] has_key(m, k) == drawn.contains(k)
    &&& drawn.no_duplicates() ==> m.len() == drawn.len()
}

/// A generated thing holds from 1500 to 1799 stuff entries, one per draw,
/// whenever no key was drawn twice.
pub proof fn lemma_stuff_count(m: Seq<(String, Stuff)>, drawn: Seq<Seq<char>>)
    requires
        stuff_drawn_from(m, drawn),
        drawn.no_duplicates(),
    ensures
        1500 <= m.len() < 1800,
        m.len() == drawn.len(),
{
}

#[derive(Debug)]
pub struct Thing {
    pub name: String,
    pub surname: Option<String>,
    pub var_things: Vec<VarThing>,
    /// A map from key to `Stuff`, one entry per key.
    pub stuff: Vec<(String, Stuff)>,
    pub bidules: Vec<Bidule>,
}

impl Thing {
    /// Whether the keys of `stuff` are unique.
    pub open spec fn wf(&self) -> bool {
        keys_unique(self.stuff@)
    }

    pub fn new(r: &mut RandomSource) -> (t: Thing)
        requires
            old(r).wf(),
        ensures
            final(r).charset@ == old(r).charset@,
            t.wf(),
            is_rand_string(t.name@),
            t.surname matches Some(s) ==> is_rand_string(s@),
            1400 <= t.var_things@.len() < 1500,
            forall|i: int|
                0 <= i < t.var_things@.len() ==> (#[trigger] t.var_things@[i]).generated(
                    old(r).charset@,
                ),
            1 <= t.stuff@.len() < 1800,
            exists|drawn: Seq<Seq<char>>| #[trigger] stuff_drawn_from(t.stuff@, drawn),
            forall|i: int|
                0 <= i < t.stuff@.len() ==> is_rand_string((#[trigger] t.stuff@[i]).0@)
                    && t.stuff@[i].1.generated(old(r).charset@),
            1500 <= t.bidules@.len() < 2000,
            forall|i: int| 0 <= i < t.bidules@.len() ==> (#[trigger] t.bidules@[i]).generated(),
    {
        let ghost cs = r.charset@;
        let n = below(&mut r.rng, 1400, 1500);
        let mut var_things: Vec<VarThing> = Vec::new();
        let mut i: usize = 0;
        while i < n
            invariant
                i <= n,
                var_things@.len() == i,
                r.charset@ == cs,
                r.wf(),
                forall|j: int| 0 <= j < i ==> (#[trigger] var_things@[j]).generated(cs),
            decreases n - i,
        {
            var_things.push(VarThing::new(r));
            i = i + 1;
        }
        let n = below(&mut r.rng, 1500, 1800);
        let mut stuff: Vec<(String, Stuff)> = Vec::new();
        let ghost mut drawn: Seq<Seq<char>> = Seq::empty();
        let mut i: usize = 0;
        while i < n
            invariant
                i <= n,
                1500 <= n < 1800,
                drawn.len() == i,
                forall|k: Seq<char>| #[trigger] has_key(stuff@, k) == drawn.contains(k),
                drawn.no_duplicates() ==> stuff@.len() == drawn.len(),
                stuff@.len() <= i,
                i > 0 ==> stuff@.len() > 0,
                keys_unique(stuff@),
                r.charset@ == cs,
                r.wf(),
                forall|j: int|
                    0 <= j < stuff@.len() ==> is_rand_string((#[trigger] stuff@[j]).0@)
                        && stuff@[j].1.generated(cs),
            decreases n - i,
        {
            let key = rand_string(r);
            let value = Stuff::new(r);
            let ghost prev_drawn = drawn;
            let ghost prev = stuff@;
            proof {
                drawn = drawn.push(key@);
                assert forall|k: Seq<char>| drawn.contains(k) == (prev_drawn.contains(k) || k == key@) by {
                    if drawn.contains(k) {
                        let j = choose|j: int| 0 <= j < drawn.len() && drawn[j] == k;
                        if j < prev_drawn.len() {
                            assert(prev_drawn[j] == k);
                        }
                    }
                    if prev_drawn.contains(k) {
                        let j = choose|j: int| 0 <= j < prev_drawn.len() && prev_drawn[j] == k;
                        assert(drawn[j] == k);
                    }
                    if k == key@ {
                        assert(drawn[prev_drawn.len() as int] == k);
                    }
                }
                if drawn.no_duplicates() {
                    assert(prev_drawn.no_duplicates()) by {
                        assert forall|a: int, b: int| 0 <= a < prev_drawn.len() && 0 <= b < prev_drawn.len() && a != b implies prev_drawn[a] != prev_drawn[b] by {
                            assert(drawn[a] == prev_drawn[a] && drawn[b] == prev_drawn[b]);
                        }
                    }
                    assert(!prev_drawn.contains(key@)) by {
                        if prev_drawn.contains(key@) {
                            let j = choose|j: int| 0 <= j < prev_drawn.len() && prev_drawn[j] == key@;
                            assert(drawn[j] == drawn[prev_drawn.len() as int]);
                        }
                    }
                    assert(!has_key(prev, key@));
                }
            }
            insert_stuff(&mut stuff, key, value);
            i = i + 1;
        }
        assert(stuff_drawn_from(stuff@, drawn));
        let n = below(&mut r.rng, 1500, 2000);
        let mut bidules: Vec<Bidule> = Vec::new();
        let mut i: usize = 0;
        while i < n
            invariant
                i <= n,
                bidules@.len() == i,
                r.charset@ == cs,
                r.wf(),
                forall|j: int| 0 <= j < i ==> (#[trigger] bidules@[j]).generated(),
            decreases n - i,
        {
            bidules.push(Bidule::new(r));
            i = i + 1;
        }
        let name = rand_string(r);
        let surname = if coin(&mut r.rng) {
            Some(rand_string(r))
        } else {
            None
        };
        Thing { name, surname, var_things, stuff, bidules }
    }
}

} // verus!
