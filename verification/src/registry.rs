//! The registry of hosts discovered during a capture.

use vstd::prelude::*;

verus! {

/// The registry contents after `address` has been observed: unchanged when
/// the address is already present, extended by it at the end otherwise.
pub open spec fn observed(hosts: Seq<Seq<char>>, address: Seq<char>) -> Seq<Seq<char>> {
    if hosts.contains(address) {
        hosts
    } else {
        hosts.push(address)
    }
}

/// An insertion-ordered, duplicate-free collection of hardware addresses in
/// canonical text form. Entries are never removed.
#[derive(Debug)]
pub struct HostRegistry {
    hosts: Vec<String>,
}

impl View for HostRegistry {
    type V = Seq<Seq<char>>;

    /// The addresses in first-seen order.
    closed spec fn view(&self) -> Seq<Seq<char>> {
        Seq::new(self.hosts@.len(), |i: int| self.hosts@[i]@)
    }
}

impl Clone for HostRegistry {
    /// A registry of its own with the same addresses in the same order.
    fn clone(&self) -> (r: Self)
        ensures
            r@ == self@,
    {
        let hosts = self.snapshot_in_order();
        proof {
            let copied = Seq::new(hosts@.len(), |i: int| hosts@[i]@);
            assert(copied =~= self@);
        }
        let r = HostRegistry { hosts };
        assert(r@ =~= self@);
        r
    }
}

impl HostRegistry {
    #[verifier::type_invariant]
    closed spec fn distinct(&self) -> bool {
        self@.no_duplicates()
    }

    /// An empty registry.
    pub fn new() -> (r: Self)
        ensures
            r@ == Seq::<Seq<char>>::empty(),
    {
        let r = HostRegistry { hosts: Vec::new() };
        assert(r@ =~= Seq::<Seq<char>>::empty());
        r
    }

    /// Number of distinct addresses seen so far.
    pub fn len(&self) -> (n: usize)
        ensures
            n == self@.len(),
    {
        self.hosts.len()
    }

    /// Whether no address has been seen yet.
    pub fn is_empty(&self) -> (r: bool)
        ensures
            r == (self@.len() == 0),
    {
        self.hosts.len() == 0
    }

    /// Does nothing when run. To a verified caller it shows that a registry
    /// never holds the same address twice.
    pub fn distinct_entries(&self)
        ensures
            self@.no_duplicates(),
    {
        proof {
            use_type_invariant(self);
        }
    }

    /// Position of `address` among the entries, if it is one of them.
    fn position(&self, address: &String) -> (r: Option<usize>)
        ensures
            match r {
                Some(i) => i < self@.len() && self@[i as int] == address@,
                None => !self@.contains(address@),
            },
    {
        let mut i: usize = 0;
        while i < self.hosts.len()
            invariant
                i <= self.hosts@.len(),
                forall|k: int| 0 <= k < i ==> self@[k] != address@,
            decreases self.hosts@.len() - i,
        {
            if self.hosts[i] == *address {
                return Some(i);
            }
            i += 1;
        }
        None
    }

    /// Whether `address` has been observed.
    pub fn contains(&self, address: &str) -> (r: bool)
        ensures
            r == self@.contains(address@),
    {
        let owned = address.to_owned();
        self.position(&owned).is_some()
    }

    /// Records that `address` was seen on the wire.
    ///
    /// A new address is appended after all earlier ones; one already present
    /// leaves the registry exactly as it was.
    pub fn observe(&mut self, address: String)
        ensures
            final(self)@ == observed(old(self)@, address@),
            final(self)@.no_duplicates(),
    {
        proof {
            use_type_invariant(&*self);
            lemma_observed_extends(self@, address@);
        }
        if self.position(&address).is_none() {
            let ghost before = self@;
            let mut hosts: Vec<String> = Vec::new();
            core::mem::swap(&mut self.hosts, &mut hosts);
            assert(self@ =~= Seq::<Seq<char>>::empty());
            hosts.push(address);
            proof {
                let after = Seq::new(hosts@.len(), |i: int| hosts@[i]@);
                assert(after =~= before.push(address@));
            }
            core::mem::swap(&mut self.hosts, &mut hosts);
            assert(self@ =~= before.push(address@));
        }
    }

    /// The addresses seen so far, in first-seen order and without repetition.
    pub fn snapshot_in_order(&self) -> (r: Vec<String>)
        ensures
            r@.len() == self@.len(),
            forall|i: int| 0 <= i < r@.len() ==> (#[trigger] r@[i])@ == self@[i],
            self@.no_duplicates(),
    {
        proof {
            use_type_invariant(self);
        }
        let mut out: Vec<String> = Vec::new();
        let mut i: usize = 0;
        while i < self.hosts.len()
            invariant
                i <= self.hosts@.len(),
                out@.len() == i,
                forall|k: int| 0 <= k < i ==> (#[trigger] out@[k])@ == self@[k],
            decreases self.hosts@.len() - i,
        {
            out.push(self.hosts[i].clone());
            i += 1;
        }
        out
    }

}

/// Observing keeps a duplicate-free registry duplicate-free, keeps every
/// earlier entry at its position, and leaves the address present.
pub proof fn lemma_observed_extends(hosts: Seq<Seq<char>>, address: Seq<char>)
    requires
        hosts.no_duplicates(),
    ensures
        observed(hosts, address).no_duplicates(),
        observed(hosts, address).contains(address),
        hosts.is_prefix_of(observed(hosts, address)),
        observed(hosts, address).len() <= hosts.len() + 1,
{
    let after = observed(hosts, address);
    if !hosts.contains(address) {
        assert(after[hosts.len() as int] == address);
        assert forall|i: int, j: int| 0 <= i < after.len() && 0 <= j < after.len() && i
            != j implies after[i] != after[j] by {
            if i < hosts.len() && j < hosts.len() {
            } else if i < hosts.len() {
                assert(hosts.contains(hosts[i]));
            } else {
                assert(hosts.contains(hosts[j]));
            }
        }
    }
}

/// Observing is idempotent: a second observation of the same address changes
/// nothing.
pub proof fn lemma_observe_idempotent(hosts: Seq<Seq<char>>, address: Seq<char>)
    ensures
        observed(observed(hosts, address), address) == observed(hosts, address),
{
    if !hosts.contains(address) {
        assert(hosts.push(address)[hosts.len() as int] == address);
    }
}

/// Starting from an empty registry, one address observed twice is held once.
pub proof fn lemma_observe_twice_holds_once(address: Seq<char>)
    ensures
        observed(observed(Seq::empty(), address), address) == seq![address],
{
    let empty = Seq::<Seq<char>>::empty();
    lemma_observe_idempotent(empty, address);
    assert(empty.push(address) =~= seq![address]);
}

/// Starting from an empty registry, two different addresses are held in the
/// order in which they were observed.
pub proof fn lemma_observe_two_in_order(first: Seq<char>, second: Seq<char>)
    requires
        first != second,
    ensures
        observed(observed(Seq::empty(), first), second) == seq![first, second],
{
    let empty = Seq::<Seq<char>>::empty();
    let one = observed(empty, first);
    assert(one =~= seq![first]);
    assert(!one.contains(second));
    assert(one.push(second) =~= seq![first, second]);
}

} // verus!
