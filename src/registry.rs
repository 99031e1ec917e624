//! The names under which device nodes are registered.
use vstd::prelude::*;

verus! {

/// Why a node could not be registered.
#[derive(Debug, Clone, Copy, PartialEq, Eq)]
pub enum RegistrationError {
    /// A node of that name is registered already.
    NameInUse,
    /// No further node can be registered.
    Rejected,
}

/// The node names in use, with room for at most `limit` of them.
pub struct NodeRegistry {
    names: Vec<Vec<u8>>,
    limit: usize,
}

/// Whether two byte slices are equal.
fn bytes_eq(a: &[u8], b: &[u8]) -> (r: bool)
    ensures
        r == (a@ == b@),
{
    if a.len() != b.len() {
        return false;
    }
    let mut i: usize = 0;
    while i < a.len()
        invariant
            i <= a@.len(),
            a@.len() == b@.len(),
            forall|k: int| 0 <= k < i ==> a@[k] == b@[k],
        decreases a@.len() - i,
    {
        if a[i] != b[i] {
            return false;
        }
        i = i + 1;
    }
    assert(a@ =~= b@);
    true
}

/// Copies a byte slice into a vector.
pub(crate) fn bytes_to_vec(a: &[u8]) -> (r: Vec<u8>)
    ensures
        r@ == a@,
{
    let mut v: Vec<u8> = Vec::new();
    let mut i: usize = 0;
    while i < a.len()
        invariant
            i <= a@.len(),
            v@ == a@.subrange(0, i as int),
        decreases a@.len() - i,
    {
        v.push(a[i]);
        i = i + 1;
        assert(v@ =~= a@.subrange(0, i as int));
    }
    assert(v@ =~= a@);
    v
}

impl NodeRegistry {
    /// At most `limit` names are in use, and no name twice.
    pub closed spec fn wf(self) -> bool {
        &&& self.names@.len() <= self.limit
        &&& forall|i: int, j: int|
            0 <= i < self.names@.len() && 0 <= j < self.names@.len() && i != j
                ==> #[trigger] self.names@[i]@ != #[trigger] self.names@[j]@
    }

    /// The names in use, in the order they were registered.
    pub closed spec fn names(self) -> Seq<Seq<u8>> {
        self.names@.map_values(|v: Vec<u8>| v@)
    }

    /// How many names may be in use at once.
    pub closed spec fn limit(self) -> nat {
        self.limit as nat
    }

    /// Whether `name` is in use.
    pub open spec fn has(self, name: Seq<u8>) -> bool {
        self.names().contains(name)
    }

    /// An empty registry with room for `limit` names.
    pub fn new(limit: usize) -> (r: Self)
        ensures
            r.wf(),
            r.names() == Seq::<Seq<u8>>::empty(),
            r.limit() == limit,
    {
        let r = NodeRegistry { names: Vec::new(), limit };
        assert(r.names() =~= Seq::<Seq<u8>>::empty());
        r
    }

    /// Position of `name` among the names in use.
    fn position(&self, name: &[u8]) -> (r: Option<usize>)
        ensures
            r matches Some(i) ==> i < self.names().len() && self.names()[i as int] == name@,
            r is None ==> !self.has(name@),
    {
        let mut i: usize = 0;
        while i < self.names.len()
            invariant
                i <= self.names@.len(),
                forall|k: int| 0 <= k < i ==> self.names@[k]@ != name@,
            decreases self.names@.len() - i,
        {
            if bytes_eq(self.names[i].as_slice(), name) {
                return Some(i);
            }
            i = i + 1;
        }
        proof {
            if self.has(name@) {
                let k = self.names().index_of(name@);
                assert(self.names()[k] == self.names@[k]@);
            }
        }
        None
    }

    /// Whether `name` is in use.
    pub fn is_registered(&self, name: &[u8]) -> (r: bool)
        ensures
            r == self.has(name@),
    {
        self.position(name).is_some()
    }

    /// How many names are in use.
    pub fn len(&self) -> (r: usize)
        ensures
            r == self.names().len(),
    {
        self.names.len()
    }

    /// Registers `name`. It fails, and nothing changes, when the name is in use or
    /// when `limit` names are in use already.
    pub fn register(&mut self, name: &[u8]) -> (r: Result<(), RegistrationError>)
        requires
            old(self).wf(),
        ensures
            final(self).wf(),
            old(self).has(name@) ==> r == Err::<(), RegistrationError>(RegistrationError::NameInUse),
            !old(self).has(name@) && old(self).names().len() >= old(self).limit() ==> r == Err::<
                (),
                RegistrationError,
            >(RegistrationError::Rejected),
            r is Ok <==> !old(self).has(name@) && old(self).names().len() < old(self).limit(),
            r is Ok ==> final(self).names() == old(self).names().push(name@),
            r is Err ==> final(self).names() == old(self).names(),
            final(self).limit() == old(self).limit(),
    {
        if self.position(name).is_some() {
            return Err(RegistrationError::NameInUse);
        }
        if self.names.len() >= self.limit {
            return Err(RegistrationError::Rejected);
        }
        let v = bytes_to_vec(name);
        proof {
            assert forall|k: int| 0 <= k < self.names@.len() implies self.names@[k]@ != name@ by {
                assert(self.names()[k] == self.names@[k]@);
            }
        }
        self.names.push(v);
        assert(self.names() =~= old(self).names().push(name@));
        Ok(())
    }

    /// Releases `name`; the other names stay in use.
    pub fn deregister(&mut self, name: &[u8])
        requires
            old(self).wf(),
        ensures
            final(self).wf(),
            forall|n: Seq<u8>| #[trigger] final(self).has(n) <==> (old(self).has(n) && n != name@),
            final(self).limit() == old(self).limit(),
    {
        match self.position(name) {
            Some(i) => {
                let ghost before = self.names@;
                self.names.remove(i);
                proof {
                    assert(self.names@ == before.remove(i as int));
                    assert forall|n: Seq<u8>| #[trigger] self.has(n) <==> (old(self).has(n) && n != name@) by {
                        if self.has(n) {
                            let k = self.names().index_of(n);
                            assert(self.names()[k] == self.names@[k]@);
                            if k < i {
                                assert(old(self).names()[k] == before[k]@);
                            } else {
                                assert(old(self).names()[k + 1] == before[k + 1]@);
                                assert(before[i as int]@ == name@);
                            }
                        }
                        if old(self).has(n) && n != name@ {
                            let k = old(self).names().index_of(n);
                            assert(old(self).names()[k] == before[k]@);
                            assert(k != i);
                            if k < i {
                                assert(self.names()[k] == self.names@[k]@);
                            } else {
                                assert(self.names()[k - 1] == self.names@[k - 1]@);
                            }
                        }
                    }
                }
            },
            None => {},
        }
    }
}

} // verus!
