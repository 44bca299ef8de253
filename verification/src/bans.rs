//! The ban registry: a permanent deny-list of client addresses, checked
//! before any write. Banning an already-banned address changes nothing.

use vstd::prelude::*;

verus! {

pub struct BanRegistry {
    addrs: Vec<String>,
}

impl BanRegistry {
    pub fn new() -> (r: Self)
        ensures
            r@ == Set::<Seq<char>>::empty(),
    {
        let r = BanRegistry { addrs: Vec::new() };
        proof {
            assert(r@ =~= Set::<Seq<char>>::empty());
        }
        r
    }

    pub fn is_banned(&self, addr: &String) -> (r: bool)
        ensures
            r == self@.contains(addr@),
    {
        let n = self.addrs.len();
        let mut i: usize = 0;
        while i < n
            invariant
                n == self.addrs@.len(),
                forall|j: int| 0 <= j < i ==> #[trigger] self.addrs@[j]@ != addr@,
            decreases n - i,
        {
            if self.addrs[i] == *addr {
                return true;
            }
            i += 1;
        }
        false
    }

    /// Registers `addr`; a no-op in effect when it is already banned.
    pub fn ban(&mut self, addr: String)
        ensures
            final(self)@ == old(self)@.insert(addr@),
    {
        let ghost ga = addr@;
        if !self.is_banned(&addr) {
            self.addrs.push(addr);
            proof {
                assert forall|x: Seq<char>|
                    self@.contains(x) == old(self)@.insert(ga).contains(x) by {
                    if self@.contains(x) {
                        let j = choose|j: int| 0 <= j < self.addrs@.len() && self.addrs@[j]@ == x;
                        if j < old(self).addrs@.len() {
                            assert(old(self).addrs@[j]@ == x);
                        }
                    }
                    if old(self)@.insert(ga).contains(x) && x != ga {
                        let j = choose|j: int|
                            0 <= j < old(self).addrs@.len() && old(self).addrs@[j]@ == x;
                        assert(self.addrs@[j]@ == x);
                    }
                    if x == ga {
                        assert(self.addrs@[self.addrs@.len() - 1]@ == x);
                    }
                }
                assert(self@ =~= old(self)@.insert(ga));
            }
        } else {
            proof {
                assert(self@ =~= old(self)@.insert(ga));
            }
        }
    }
}

impl View for BanRegistry {
    type V = Set<Seq<char>>;

    closed spec fn view(&self) -> Set<Seq<char>> {
        Set::new(|a: Seq<char>| exists|i: int| 0 <= i < self.addrs@.len() && self.addrs@[i]@ == a)
    }
}

} // verus!
