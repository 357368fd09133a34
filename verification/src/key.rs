use vstd::prelude::*;

verus! {

/// A 32-byte identity — a member key, a program id, or an account address —
/// held as four 64-bit words, `w0` most significant in the key order. The
/// core never interprets an identity; it only compares, stores and serializes
/// it.
#[derive(Clone, Copy, Debug, PartialEq, Eq, Structural)]
pub struct Pubkey {
    pub w0: u64,
    pub w1: u64,
    pub w2: u64,
    pub w3: u64,
}

/// The strict total order on keys: lexicographic on the four words. Member
/// and vote ledgers are kept strictly increasing in this order.
pub open spec fn key_lt(a: Pubkey, b: Pubkey) -> bool {
    ||| a.w0 < b.w0
    ||| a.w0 == b.w0 && a.w1 < b.w1
    ||| a.w0 == b.w0 && a.w1 == b.w1 && a.w2 < b.w2
    ||| a.w0 == b.w0 && a.w1 == b.w1 && a.w2 == b.w2 && a.w3 < b.w3
}

/// A strictly increasing sequence of keys: sorted and free of duplicates.
pub open spec fn sorted_strict(s: Seq<Pubkey>) -> bool {
    forall|i: int, j: int| 0 <= i < j < s.len() ==> key_lt(s[i], s[j])
}

impl Pubkey {
    pub fn new(w0: u64, w1: u64, w2: u64, w3: u64) -> (r: Pubkey)
        ensures
            r == (Pubkey { w0, w1, w2, w3 }),
    {
        Pubkey { w0, w1, w2, w3 }
    }

    /// Strict comparison in the key order.
    pub fn lt(&self, other: &Pubkey) -> (r: bool)
        ensures
            r == key_lt(*self, *other),
    {
        if self.w0 != other.w0 {
            self.w0 < other.w0
        } else if self.w1 != other.w1 {
            self.w1 < other.w1
        } else if self.w2 != other.w2 {
            self.w2 < other.w2
        } else {
            self.w3 < other.w3
        }
    }
}

/// Binary search over a strictly sorted key vector: the position of `key`,
/// or `None` when it is absent.
pub fn search(v: &Vec<Pubkey>, key: &Pubkey) -> (r: Option<usize>)
    requires
        sorted_strict(v@),
    ensures
        match r {
            Some(i) => i < v.len() && v@[i as int] == *key,
            None => !v@.contains(*key),
        },
{
    let mut lo: usize = 0;
    let mut hi: usize = v.len();
    while lo < hi
        invariant
            lo <= hi <= v.len(),
            sorted_strict(v@),
            forall|j: int| 0 <= j < lo ==> key_lt(v@[j], *key),
            forall|j: int| hi <= j < v@.len() ==> key_lt(*key, v@[j]),
        decreases hi - lo,
    {
        let mid: usize = lo + (hi - lo) / 2;
        if v[mid].lt(key) {
            proof {
                assert forall|j: int| 0 <= j < mid + 1 implies key_lt(v@[j], *key) by {
                    if j < mid {
                        assert(key_lt(v@[j], v@[mid as int]));
                    }
                }
            }
            lo = mid + 1;
        } else if key.lt(&v[mid]) {
            proof {
                assert forall|j: int| mid <= j < v@.len() implies key_lt(*key, v@[j]) by {
                    if j > mid {
                        assert(key_lt(v@[mid as int], v@[j]));
                    }
                }
            }
            hi = mid;
        } else {
            return Some(mid);
        }
    }
    assert(forall|j: int| 0 <= j < v@.len() ==> v@[j] != *key);
    None
}

/// Inserts a key that is not yet present at its sorted position.
pub fn insert_sorted(v: &mut Vec<Pubkey>, key: Pubkey)
    requires
        sorted_strict(old(v)@),
        !old(v)@.contains(key),
        old(v).len() < usize::MAX,
    ensures
        sorted_strict(final(v)@),
        final(v)@.to_set() == old(v)@.to_set().insert(key),
        final(v)@.len() == old(v)@.len() + 1,
        final(v)@.contains(key),
{
    let ghost orig = v@;
    let mut i: usize = 0;
    while i < v.len() && v[i].lt(&key)
        invariant
            i <= v.len(),
            v@ == orig,
            forall|j: int| 0 <= j < i ==> key_lt(v@[j], key),
        decreases v.len() - i,
    {
        i = i + 1;
    }
    proof {
        assert forall|j: int| i <= j < orig.len() implies key_lt(key, orig[j]) by {
            assert(orig[j] != key) by {
                if orig[j] == key {
                    assert(orig.contains(key));
                }
            }
            assert(!key_lt(orig[i as int], key));
            if j > i {
                assert(key_lt(orig[i as int], orig[j]));
                assert(orig[i as int] != key) by {
                    if orig[i as int] == key {
                        assert(orig.contains(key));
                    }
                }
            }
        }
    }
    v.insert(i, key);
    proof {
        let s = v@;
        assert(s == orig.insert(i as int, key));
        assert forall|p: int, q: int| 0 <= p < q < s.len() implies key_lt(s[p], s[q]) by {
            orig.insert_ensures(i as int, key);
        }
        assert forall|x: Pubkey| s.contains(x) <==> (orig.contains(x) || x == key) by {
            orig.insert_ensures(i as int, key);
            if s.contains(x) {
                let p = choose|p: int| 0 <= p < s.len() && s[p] == x;
                if p < i {
                    assert(orig[p] == x);
                } else if p > i {
                    assert(orig[p - 1] == x);
                }
            }
            if orig.contains(x) {
                let p = choose|p: int| 0 <= p < orig.len() && orig[p] == x;
                if p < i {
                    assert(s[p] == x);
                } else {
                    assert(s[p + 1] == x);
                }
            }
            if x == key {
                assert(s[i as int] == x);
            }
        }
        assert(s.to_set() =~= orig.to_set().insert(key));
    }
}

/// Removing the entry at one position of a strictly sorted sequence removes
/// exactly that key from the set it holds.
pub proof fn lemma_sorted_remove(s: Seq<Pubkey>, i: int)
    requires
        sorted_strict(s),
        0 <= i < s.len(),
    ensures
        sorted_strict(s.remove(i)),
        s.remove(i).to_set() == s.to_set().remove(s[i]),
        s.remove(i).len() == s.len() - 1,
        !s.remove(i).contains(s[i]),
{
    let t = s.remove(i);
    s.remove_ensures(i);
    assert forall|p: int, q: int| 0 <= p < q < t.len() implies key_lt(t[p], t[q]) by {
        if q < i {
            assert(t[p] == s[p] && t[q] == s[q]);
        } else if p >= i {
            assert(t[p] == s[p + 1] && t[q] == s[q + 1]);
        } else {
            assert(t[p] == s[p] && t[q] == s[q + 1]);
        }
    }
    assert forall|x: Pubkey| t.contains(x) <==> (s.contains(x) && x != s[i]) by {
        if t.contains(x) {
            let p = choose|p: int| 0 <= p < t.len() && t[p] == x;
            if p < i {
                assert(s[p] == x);
                assert(key_lt(s[p], s[i]));
            } else {
                assert(s[p + 1] == x);
                assert(key_lt(s[i], s[p + 1]));
            }
        }
        if s.contains(x) && x != s[i] {
            let p = choose|p: int| 0 <= p < s.len() && s[p] == x;
            if p < i {
                assert(t[p] == x);
            } else {
                assert(p > i);
                assert(t[p - 1] == x);
            }
        }
    }
    assert(t.to_set() =~= s.to_set().remove(s[i]));
}

/// Two strictly sorted sequences holding the same set of keys are the same
/// sequence: the sorted representation of a member or vote set is unique.
pub proof fn lemma_sorted_unique(s1: Seq<Pubkey>, s2: Seq<Pubkey>)
    requires
        sorted_strict(s1),
        sorted_strict(s2),
        s1.to_set() == s2.to_set(),
    ensures
        s1 == s2,
    decreases s1.len(),
{
    if s1.len() == 0 {
        if s2.len() > 0 {
            assert(s2.contains(s2[0]));
            assert(s1.to_set().contains(s2[0]));
            assert(false);
        }
        assert(s1 =~= s2);
    } else if s2.len() == 0 {
        assert(s1.contains(s1[0]));
        assert(s2.to_set().contains(s1[0]));
        assert(false);
    } else {
        // The heads are equal: each is the least key of the common set.
        assert(s1.contains(s1[0]));
        assert(s2.to_set().contains(s1[0]));
        let j = choose|j: int| 0 <= j < s2.len() && s2[j] == s1[0];
        assert(s2.contains(s2[0]));
        assert(s1.to_set().contains(s2[0]));
        let k = choose|k: int| 0 <= k < s1.len() && s1[k] == s2[0];
        if j > 0 {
            assert(key_lt(s2[0], s2[j]));
        }
        if k > 0 {
            assert(key_lt(s1[0], s1[k]));
        }
        assert(s1[0] == s2[0]);
        let t1 = s1.skip(1);
        let t2 = s2.skip(1);
        assert forall|p: int, q: int| 0 <= p < q < t1.len() implies key_lt(t1[p], t1[q]) by {
            assert(t1[p] == s1[p + 1] && t1[q] == s1[q + 1]);
        }
        assert forall|p: int, q: int| 0 <= p < q < t2.len() implies key_lt(t2[p], t2[q]) by {
            assert(t2[p] == s2[p + 1] && t2[q] == s2[q + 1]);
        }
        assert forall|x: Pubkey| t1.to_set().contains(x) == t2.to_set().contains(x) by {
            assert(s1.to_set().contains(x) == s2.to_set().contains(x));
            assert(s1.to_set().contains(x) == s1.contains(x));
            assert(s2.to_set().contains(x) == s2.contains(x));
            if t1.contains(x) {
                let p = choose|p: int| 0 <= p < t1.len() && t1[p] == x;
                assert(s1[p + 1] == x);
                assert(key_lt(s1[0], s1[p + 1]));
                assert(s2.contains(x));
                let q = choose|q: int| 0 <= q < s2.len() && s2[q] == x;
                assert(q > 0);
                assert(t2[q - 1] == x);
                assert(t2.contains(x));
            }
            if t2.contains(x) {
                let p = choose|p: int| 0 <= p < t2.len() && t2[p] == x;
                assert(s2[p + 1] == x);
                assert(key_lt(s2[0], s2[p + 1]));
                assert(s1.contains(x));
                let q = choose|q: int| 0 <= q < s1.len() && s1[q] == x;
                assert(q > 0);
                assert(t1[q - 1] == x);
                assert(t1.contains(x));
            }
        }
        assert(t1.to_set() =~= t2.to_set());
        lemma_sorted_unique(t1, t2);
        assert forall|p: int| 0 <= p < s1.len() implies s1[p] == s2[p] by {
            if p > 0 {
                assert(s1[p] == t1[p - 1] && s2[p] == t2[p - 1]);
            }
        }
        assert(s1 =~= s2);
    }
}

} // verus!
