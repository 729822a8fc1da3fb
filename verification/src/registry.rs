//! The registry of relay implementations: implementation identifiers in
//! declared order, and the deterministic round-robin assignment of
//! implementations to declared relays.

use vstd::prelude::*;

verus! {

/// A mapping from position to relay implementation identifier.  In
/// heterogeneity mode several implementations are registered; in homogeneous
/// mode the registry holds exactly one and every relay receives it.
pub struct ActorRegistry {
    idents: Vec<String>,
}

impl View for ActorRegistry {
    type V = Seq<Seq<char>>;

    /// The registered implementation identifiers, in declared order.
    closed spec fn view(&self) -> Seq<Seq<char>> {
        self.idents@.map_values(|s: String| s@)
    }
}

impl ActorRegistry {
    /// A registry of one implementation.
    pub fn homogeneous(ident: String) -> (r: ActorRegistry)
        ensures
            r@.len() == 1,
            r@[0] == ident@,
    {
        let mut idents: Vec<String> = Vec::new();
        idents.push(ident);
        ActorRegistry { idents }
    }

    /// A registry of the given implementations, in the given order.
    pub fn heterogeneous(idents: Vec<String>) -> (r: ActorRegistry)
        requires
            idents@.len() >= 1,
        ensures
            r@.len() == idents@.len(),
            forall|i: int| 0 <= i < idents@.len() ==> r@[i] == (#[trigger] idents@[i])@,
    {
        ActorRegistry { idents }
    }

    /// How many implementations are registered.
    pub fn size(&self) -> (n: usize)
        ensures
            n == self@.len(),
    {
        self.idents.len()
    }

    /// The implementation assigned to the relay at position `i` of the
    /// declared relay list: round-robin, the registry entry at `i mod k`
    /// where `k` is the registry size.  The assignment depends on the
    /// declaration order alone, so identical configurations are assigned
    /// identically on every run.
    pub fn assign_ident(&self, i: usize) -> (r: String)
        requires
            self@.len() >= 1,
        ensures
            r@ == self@[i as int % self@.len() as int],
    {
        let k = i % self.idents.len();
        self.idents[k].clone()
    }
}

} // verus!
