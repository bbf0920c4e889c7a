//! The closure registry that keeps callbacks alive for the host.
use vstd::prelude::*;

verus! {

/// The closures that the host may call back, owned for the life of the
/// session. The host knows a closure only by its address here, its index;
/// entries are never removed, so every address handed out stays valid.
pub struct Registry<C> {
    closures: Vec<C>,
}

impl<C> View for Registry<C> {
    type V = Seq<C>;

    closed spec fn view(&self) -> Seq<C> {
        self.closures@
    }
}

impl<C> Registry<C> {
    pub fn new() -> (r: Registry<C>)
        ensures
            r@ == Seq::<C>::empty(),
    {
        Registry { closures: Vec::new() }
    }

    pub fn len(&self) -> (r: usize)
        ensures
            r == self@.len(),
    {
        self.closures.len()
    }

    /// Takes ownership of `c` and returns its address.
    pub fn register(&mut self, c: C) -> (addr: usize)
        ensures
            addr == old(self)@.len(),
            final(self)@ == old(self)@.push(c),
    {
        let addr = self.closures.len();
        self.closures.push(c);
        addr
    }

    /// The closure at `addr`, borrowed: the registry keeps ownership.
    pub fn get(&self, addr: usize) -> (r: Option<&C>)
        ensures
            r is Some <==> addr < self@.len(),
            r matches Some(c) ==> *c == self@[addr as int],
    {
        if addr < self.closures.len() {
            Some(&self.closures[addr])
        } else {
            None
        }
    }
}

} // verus!
