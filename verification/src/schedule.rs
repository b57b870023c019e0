//! The times at which an element has something to finish.
//!
//! A time is held as a key: a `u32` whose order is the order of the times it
//! stands for (times are `f32` values ordered as `ordered_float` orders them,
//! so every NaN stands above infinity and both zeros are one time). The
//! times an element has pending form a multiset, and the element acts at the
//! greatest of them, as a max-heap hands it out.
use vstd::prelude::*;
use vstd::multiset::Multiset;

verus! {

broadcast use vstd::seq_lib::group_to_multiset_ensures;

/// The key of positive infinity: a time that never comes.
pub const NEVER: u32 = 0xFF80_0000;

/// The key of the time at which a creating element first acts (0.00001).
pub const FIRST_ARRIVAL: u32 = 0xB727_C5AC;

/// The key of the time whose `f32` bits are `bits`: a negative time (sign
/// bit set) has its bits inverted, a positive one gets the sign bit set.
pub open spec fn key_of(bits: u32) -> u32 {
    if bits >= 0x8000_0000 {
        (0xFFFF_FFFF - bits) as u32
    } else {
        (bits + 0x8000_0000) as u32
    }
}

/// The `f32` bits of the time whose key is `key`.
pub open spec fn bits_of(key: u32) -> u32 {
    if key >= 0x8000_0000 {
        (key - 0x8000_0000) as u32
    } else {
        (0xFFFF_FFFF - key) as u32
    }
}

/// The order of the numbers that `f32` bits write in sign and magnitude:
/// any negative number (sign bit set) before any positive one, negatives by
/// falling magnitude, positives by rising magnitude. It is the order of the
/// `f32` values apart from NaN and the negative zero, which come before a
/// key is made.
pub open spec fn bits_before(a: u32, b: u32) -> bool {
    if a >= 0x8000_0000 && b >= 0x8000_0000 {
        a > b
    } else if a < 0x8000_0000 && b < 0x8000_0000 {
        a < b
    } else {
        a >= 0x8000_0000
    }
}

/// The key of the time whose `f32` bits are `bits`.
pub fn key_of_bits(bits: u32) -> (k: u32)
    ensures
        k == key_of(bits),
{
    if bits >= 0x8000_0000 {
        0xFFFF_FFFF - bits
    } else {
        bits + 0x8000_0000
    }
}

/// The `f32` bits of the time whose key is `key`.
pub fn bits_of_key(key: u32) -> (bits: u32)
    ensures
        bits == bits_of(key),
{
    if key >= 0x8000_0000 {
        key - 0x8000_0000
    } else {
        0xFFFF_FFFF - key
    }
}

/// Keys and bits correspond one to one, and keys order as the numbers that
/// the bits write.
pub proof fn law_keys_order_as_times(a: u32, b: u32)
    ensures
        bits_of(key_of(a)) == a,
        key_of(bits_of(a)) == a,
        key_of(a) < key_of(b) <==> bits_before(a, b),
{
}

/// `NEVER` is the key of positive infinity (bits `0x7F80_0000`), and
/// `FIRST_ARRIVAL` that of 0.00001 (bits `0x3727_C5AC`).
pub proof fn law_named_keys()
    ensures
        NEVER == key_of(0x7F80_0000),
        FIRST_ARRIVAL == key_of(0x3727_C5AC),
{
}

/// `m` is the greatest key in `ms`.
pub open spec fn is_greatest(ms: Multiset<u32>, m: u32) -> bool {
    &&& ms.contains(m)
    &&& forall|x: u32| ms.contains(x) ==> x <= m
}

/// The greatest key in `ms`, if there is one.
pub open spec fn greatest(ms: Multiset<u32>) -> Option<u32> {
    if exists|m: u32| is_greatest(ms, m) {
        Some(choose|m: u32| is_greatest(ms, m))
    } else {
        None
    }
}

/// Two keys that are both the greatest of one multiset are equal.
pub proof fn lemma_greatest_unique(ms: Multiset<u32>, a: u32, b: u32)
    requires
        is_greatest(ms, a),
        is_greatest(ms, b),
    ensures
        a == b,
{
}

/// After adding `t`, the greatest pending time is `t` or the greatest before,
/// whichever is greater.
pub proof fn law_greatest_after_insert(ms: Multiset<u32>, t: u32)
    ensures
        greatest(ms.insert(t)) == Some(
            match greatest(ms) {
                Some(m) => if m < t {
                    t
                } else {
                    m
                },
                None => t,
            },
        ),
{
    let g = match greatest(ms) {
        Some(m) => if m < t {
            t
        } else {
            m
        },
        None => t,
    };
    let ms2 = ms.insert(t);
    if exists|m: u32| is_greatest(ms, m) {
        let m = choose|m: u32| is_greatest(ms, m);
        assert(ms2.count(t) > 0);
        assert(ms2.count(m) > 0);
        assert forall|x: u32| ms2.contains(x) implies x <= g by {
            if x != t {
                assert(ms2.count(x) == ms.count(x));
                assert(ms.contains(x));
            }
        }
        assert(is_greatest(ms2, g));
    } else {
        assert forall|x: u32| ms2.contains(x) implies x <= t by {
            if x != t {
                assert(ms.contains(x));
                assert(!is_greatest(ms, x));
                lemma_no_greatest_contradiction(ms, x);
            }
        }
        assert(ms2.count(t) > 0);
        assert(greatest(ms) is None);
        assert(is_greatest(ms2, g));
    }
    let c = choose|m: u32| is_greatest(ms2, m);
    lemma_greatest_unique(ms2, g, c);
}

/// A multiset that holds a key has a greatest key.
pub proof fn lemma_no_greatest_contradiction(ms: Multiset<u32>, x: u32)
    requires
        ms.contains(x),
    ensures
        exists|m: u32| is_greatest(ms, m),
    decreases u32::MAX - x,
{
    if !is_greatest(ms, x) {
        let y = choose|y: u32| ms.contains(y) && !(y <= x);
        lemma_no_greatest_contradiction(ms, y);
    }
}

/// A multiset of time keys with access to its greatest key.
#[derive(Debug)]
pub struct TimeQueue {
    keys: Vec<u32>,
}

impl View for TimeQueue {
    type V = Multiset<u32>;

    closed spec fn view(&self) -> Multiset<u32> {
        self.keys@.to_multiset()
    }
}

impl TimeQueue {
    /// An empty queue.
    pub fn new() -> (q: Self)
        ensures
            q@ =~= Multiset::<u32>::empty(),
    {
        let q = TimeQueue { keys: Vec::new() };
        proof {
            assert(q.keys@ =~= Seq::<u32>::empty());
            assert(q.keys@.to_multiset().len() == 0);
            vstd::multiset::lemma_multiset_empty_len(q.keys@.to_multiset());
        }
        q
    }

    /// How many times are pending.
    pub fn len(&self) -> (n: usize)
        ensures
            n == self@.len(),
    {
        self.keys.len()
    }

    /// The pending times, in no particular order.
    pub fn to_vec(&self) -> (v: Vec<u32>)
        ensures
            v@.to_multiset() == self@,
    {
        let mut v: Vec<u32> = Vec::new();
        let n = self.keys.len();
        let mut i: usize = 0;
        while i < n
            invariant
                n == self.keys@.len(),
                i <= n,
                v@ == self.keys@.take(i as int),
            decreases n - i,
        {
            v.push(self.keys[i]);
            assert(self.keys@.take(i + 1) =~= self.keys@.take(i as int).push(self.keys@[i as int]));
            i = i + 1;
        }
        assert(self.keys@.take(n as int) =~= self.keys@);
        v
    }

    /// Adds the time `t`.
    pub fn push(&mut self, t: u32)
        ensures
            final(self)@ =~= old(self)@.insert(t),
    {
        self.keys.push(t);
    }

    /// The position of a greatest key, where there is a key.
    fn index_of_greatest(&self) -> (r: Option<usize>)
        ensures
            r is None <==> self.keys@.len() == 0,
            r matches Some(i) ==> i < self.keys@.len() && is_greatest(self@, self.keys@[i as int]),
    {
        let n = self.keys.len();
        if n == 0 {
            return None;
        }
        let mut best: usize = 0;
        let mut i: usize = 1;
        while i < n
            invariant
                n == self.keys@.len(),
                1 <= i <= n,
                best < i,
                forall|j: int| 0 <= j < i ==> self.keys@[j] <= self.keys@[best as int],
            decreases n - i,
        {
            if self.keys[i] > self.keys[best] {
                best = i;
            }
            i = i + 1;
        }
        proof {
            let s = self.keys@;
            assert(s.contains(s[best as int]));
            assert forall|x: u32| s.to_multiset().contains(x) implies x <= s[best as int] by {
                assert(s.contains(x));
                let j = choose|j: int| 0 <= j < s.len() && s[j] == x;
            }
        }
        Some(best)
    }

    /// The greatest pending time, as `BinaryHeap::peek` gives it.
    pub fn peek(&self) -> (r: Option<u32>)
        ensures
            r == greatest(self@),
    {
        match self.index_of_greatest() {
            Some(i) => {
                let m = self.keys[i];
                proof {
                    let c = choose|c: u32| is_greatest(self@, c);
                    lemma_greatest_unique(self@, m, c);
                }
                Some(m)
            },
            None => {
                proof {
                    assert(self@.len() == 0);
                    assert forall|m: u32| !is_greatest(self@, m) by {
                        if self@.contains(m) {
                            assert(self@.count(m) > 0);
                            vstd::multiset::lemma_multiset_empty_len(self@);
                        }
                    }
                }
                None
            },
        }
    }

    /// Removes one copy of the greatest pending time and gives it back.
    pub fn pop(&mut self) -> (r: Option<u32>)
        ensures
            r == greatest(old(self)@),
            r matches Some(m) ==> final(self)@ =~= old(self)@.remove(m),
            r is None ==> final(self)@ =~= old(self)@,
    {
        let r = self.peek();
        match self.index_of_greatest() {
            Some(i) => {
                let ghost s = self.keys@;
                let m = self.keys.remove(i);
                proof {
                    lemma_greatest_unique(s.to_multiset(), m, r.unwrap());
                    assert(self.keys@ == s.remove(i as int));
                }
                Some(m)
            },
            None => r,
        }
    }
}

} // verus!
