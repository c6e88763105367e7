//! The peer table: overlay protocol address to NBMA address.

use std::collections::HashMap;
use vstd::prelude::*;

verus! {

broadcast use vstd::std_specs::hash::group_hash_axioms;

/// The number that the octets of `s` spell, most significant first.
pub open spec fn octets_value(s: Seq<u8>) -> nat
    decreases s.len(),
{
    if s.len() == 0 {
        0
    } else {
        octets_value(s.drop_last()) * 256 + s.last() as nat
    }
}

/// 256 to the power `n`.
pub open spec fn pow256(n: nat) -> nat
    decreases n,
{
    if n == 0 {
        1
    } else {
        256 * pow256((n - 1) as nat)
    }
}

proof fn lemma_octets_value_bound(s: Seq<u8>)
    ensures
        octets_value(s) < pow256(s.len()),
    decreases s.len(),
{
    if s.len() > 0 {
        lemma_octets_value_bound(s.drop_last());
        let v = octets_value(s.drop_last());
        let p = pow256((s.len() - 1) as nat);
        let l = s.last() as nat;
        assert(v * 256 + l < 256 * p) by (nonlinear_arith)
            requires
                v < p,
                l < 256,
        ;
    }
}

/// An IPv4 address spells a number below 2^32, an IPv6 one below 2^128.
proof fn lemma_key_bounds(s: Seq<u8>)
    ensures
        s.len() == 4 ==> octets_value(s) < 0x1_0000_0000,
        s.len() == 16 ==> octets_value(s) < 0x1_0000_0000_0000_0000_0000_0000_0000_0000,
{
    lemma_octets_value_bound(s);
    reveal_with_fuel(pow256, 17);
}

/// Octet strings of one length that spell the same number are equal.
proof fn lemma_octets_value_injective(a: Seq<u8>, b: Seq<u8>)
    requires
        a.len() == b.len(),
        octets_value(a) == octets_value(b),
    ensures
        a == b,
    decreases a.len(),
{
    if a.len() == 0 {
        assert(a =~= b);
    } else {
        let va = octets_value(a.drop_last());
        let vb = octets_value(b.drop_last());
        let la = a.last() as int;
        let lb = b.last() as int;
        assert(va == vb && la == lb) by (nonlinear_arith)
            requires
                va * 256 + la == vb * 256 + lb,
                0 <= la < 256,
                0 <= lb < 256,
                va >= 0,
                vb >= 0,
        ;
        lemma_octets_value_injective(a.drop_last(), b.drop_last());
        assert(a =~= a.drop_last().push(a.last()));
        assert(b =~= b.drop_last().push(b.last()));
    }
}

/// The number that an address of at most 16 octets spells.
fn octets_key(b: &[u8]) -> (r: u128)
    requires
        b@.len() <= 16,
    ensures
        r == octets_value(b@),
        r < pow256(b@.len()),
{
    let mut acc: u128 = 0;
    let mut i: usize = 0;
    assert(b@.take(0) =~= Seq::<u8>::empty());
    proof {
        reveal_with_fuel(pow256, 17);
        assert(pow256(16) == 0x1_0000_0000_0000_0000_0000_0000_0000_0000);
    }
    while i < b.len()
        invariant
            b@.len() <= 16,
            i <= b@.len(),
            acc == octets_value(b@.take(i as int)),
            acc < pow256(i as nat),
            pow256(16) == 0x1_0000_0000_0000_0000_0000_0000_0000_0000,
        decreases b@.len() - i,
    {
        proof {
            lemma_pow256_monotone((i + 1) as nat, 16);
            assert(b@.take(i + 1).drop_last() =~= b@.take(i as int));
        }
        acc = acc * 256 + b[i] as u128;
        i = i + 1;
    }
    assert(b@.take(i as int) =~= b@);
    acc
}

proof fn lemma_pow256_monotone(m: nat, n: nat)
    requires
        m <= n,
    ensures
        pow256(m) <= pow256(n),
    decreases n,
{
    if m < n {
        lemma_pow256_monotone(m, (n - 1) as nat);
    }
}

/// A protocol address the table can hold: IPv4 or IPv6.
pub open spec fn is_peer_key(k: Seq<u8>) -> bool {
    k.len() == 4 || k.len() == 16
}

/// Bindings from IPv4 and IPv6 overlay protocol addresses to NBMA
/// addresses, at most one per protocol address.  Each address family has
/// a hash map keyed by the address as a number.
pub struct PeerTable {
    v4: HashMap<u32, Vec<u8>>,
    v6: HashMap<u128, Vec<u8>>,
    bindings: Ghost<Map<Seq<u8>, Seq<u8>>>,
}

impl View for PeerTable {
    type V = Map<Seq<u8>, Seq<u8>>;

    closed spec fn view(&self) -> Map<Seq<u8>, Seq<u8>> {
        self.bindings@
    }
}

impl PeerTable {
    /// The hash maps hold exactly the bindings of the view, each under the
    /// number its protocol address spells.
    pub closed spec fn wf(&self) -> bool {
        &&& forall|k: Seq<u8>| #[trigger] self.bindings@.contains_key(k) ==> is_peer_key(k)
        &&& forall|k: Seq<u8>|
            k.len() == 4 ==> (#[trigger] self.bindings@.contains_key(k) <==> self.v4@.contains_key(
                octets_value(k) as u32,
            ))
        &&& forall|k: Seq<u8>|
            k.len() == 16 ==> (#[trigger] self.bindings@.contains_key(k)
                <==> self.v6@.contains_key(octets_value(k) as u128))
        &&& forall|k: Seq<u8>|
            k.len() == 4 && #[trigger] self.bindings@.contains_key(k) ==> self.bindings@[k]
                == self.v4@[octets_value(k) as u32]@
        &&& forall|k: Seq<u8>|
            k.len() == 16 && #[trigger] self.bindings@.contains_key(k) ==> self.bindings@[k]
                == self.v6@[octets_value(k) as u128]@
        &&& self.bindings@.dom().finite()
        &&& self.bindings@.len() == self.v4@.len() + self.v6@.len()
    }

    /// An empty table.
    pub fn new() -> (r: PeerTable)
        ensures
            r.wf(),
            r@ == Map::<Seq<u8>, Seq<u8>>::empty(),
    {
        PeerTable { v4: HashMap::new(), v6: HashMap::new(), bindings: Ghost(Map::empty()) }
    }

    /// Number of bindings, saturating at the largest `usize`.
    pub fn len(&self) -> (r: usize)
        requires
            self.wf(),
        ensures
            r == if self@.len() > usize::MAX {
                usize::MAX as nat
            } else {
                self@.len()
            },
    {
        self.v4.len().saturating_add(self.v6.len())
    }

    /// The NBMA address bound to `key`.
    pub fn get(&self, key: &[u8]) -> (r: Option<Vec<u8>>)
        requires
            self.wf(),
        ensures
            match r {
                Some(v) => self@.contains_key(key@) && self@[key@] == v@,
                None => !self@.contains_key(key@),
            },
    {
        if key.len() == 4 {
            let n = octets_key(key) as u32;
            proof {
                assert(pow256(4) == 0x1_0000_0000) by {
                    reveal_with_fuel(pow256, 5);
                }
                assert(self.bindings@.contains_key(key@) <==> self.v4@.contains_key(n));
            }
            match self.v4.get(&n) {
                Some(v) => Some(vstd::slice::slice_to_vec(v.as_slice())),
                None => None,
            }
        } else if key.len() == 16 {
            let n = octets_key(key);
            proof {
                assert(self.bindings@.contains_key(key@) <==> self.v6@.contains_key(n));
            }
            match self.v6.get(&n) {
                Some(v) => Some(vstd::slice::slice_to_vec(v.as_slice())),
                None => None,
            }
        } else {
            None
        }
    }

    /// Binds the IPv4 or IPv6 address `key` to `value`, replacing an
    /// earlier binding of `key`.
    pub fn insert(&mut self, key: &[u8], value: &[u8])
        requires
            old(self).wf(),
            is_peer_key(key@),
        ensures
            final(self).wf(),
            final(self)@ == old(self)@.insert(key@, value@),
    {
        let ghost old_map = self.bindings@;
        let ghost new_map = self.bindings@.insert(key@, value@);
        let v = vstd::slice::slice_to_vec(value);
        if key.len() == 4 {
            let n = octets_key(key) as u32;
            proof {
                assert(pow256(4) == 0x1_0000_0000) by {
                    reveal_with_fuel(pow256, 5);
                }
                assert(old_map.contains_key(key@) <==> self.v4@.contains_key(n));
            }
            self.v4.insert(n, v);
            self.bindings = Ghost(new_map);
            assert forall|k: Seq<u8>| k.len() == 4 && k != key@ implies octets_value(k) as u32 != n by {
                lemma_key_bounds(k);
                lemma_key_bounds(key@);
                if octets_value(k) as u32 == n {
                    lemma_octets_value_injective(k, key@);
                }
            }
        } else {
            let n = octets_key(key);
            proof {
                assert(old_map.contains_key(key@) <==> self.v6@.contains_key(n));
            }
            self.v6.insert(n, v);
            self.bindings = Ghost(new_map);
            assert forall|k: Seq<u8>| k.len() == 16 && k != key@ implies octets_value(k) as u128
                != n by {
                lemma_key_bounds(k);
                lemma_key_bounds(key@);
                if octets_value(k) as u128 == n {
                    lemma_octets_value_injective(k, key@);
                }
            }
        }
    }

    /// Drops the binding of `key`, if any.
    pub fn remove(&mut self, key: &[u8])
        requires
            old(self).wf(),
        ensures
            final(self).wf(),
            final(self)@ == old(self)@.remove(key@),
    {
        let ghost old_map = self.bindings@;
        let ghost new_map = self.bindings@.remove(key@);
        if key.len() == 4 {
            let n = octets_key(key) as u32;
            proof {
                assert(pow256(4) == 0x1_0000_0000) by {
                    reveal_with_fuel(pow256, 5);
                }
                assert(old_map.contains_key(key@) <==> self.v4@.contains_key(n));
            }
            self.v4.remove(&n);
            self.bindings = Ghost(new_map);
            assert forall|k: Seq<u8>| k.len() == 4 && k != key@ implies octets_value(k) as u32 != n by {
                lemma_key_bounds(k);
                lemma_key_bounds(key@);
                if octets_value(k) as u32 == n {
                    lemma_octets_value_injective(k, key@);
                }
            }
        } else if key.len() == 16 {
            let n = octets_key(key);
            proof {
                assert(old_map.contains_key(key@) <==> self.v6@.contains_key(n));
            }
            self.v6.remove(&n);
            self.bindings = Ghost(new_map);
            assert forall|k: Seq<u8>| k.len() == 16 && k != key@ implies octets_value(k) as u128
                != n by {
                lemma_key_bounds(k);
                lemma_key_bounds(key@);
                if octets_value(k) as u128 == n {
                    lemma_octets_value_injective(k, key@);
                }
            }
        } else {
            assert(new_map =~= old_map);
        }
    }
}

} // verus!
