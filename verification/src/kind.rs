//! The kinds of cluster resource that make up one workload instance, and the
//! order in which they are created and removed.

use vstd::prelude::*;

verus! {

/// One category of cluster-managed object.
#[derive(Clone, Copy, Debug, PartialEq, Eq, Structural)]
pub enum ResourceKind {
    /// The persistent storage claim.
    Storage,
    /// The compute workload, which mounts the claim.
    Compute,
    /// The network service, which selects the pods of the workload.
    Network,
}

impl ResourceKind {
    /// Position of the kind in the creation order.
    pub open spec fn rank(self) -> nat {
        match self {
            ResourceKind::Storage => 0,
            ResourceKind::Compute => 1,
            ResourceKind::Network => 2,
        }
    }

    /// The kinds in the order in which they are created: a resource comes
    /// after what it depends on.
    pub open spec fn creation_order() -> Seq<ResourceKind> {
        seq![ResourceKind::Storage, ResourceKind::Compute, ResourceKind::Network]
    }

    /// The kinds in the order in which they are removed: a resource goes
    /// before what it depends on.
    pub open spec fn teardown_order() -> Seq<ResourceKind> {
        seq![ResourceKind::Network, ResourceKind::Compute, ResourceKind::Storage]
    }

    /// Whether `self` is created before `other`.
    pub open spec fn precedes(self, other: ResourceKind) -> bool {
        self.rank() < other.rank()
    }

    /// The kind that is created next after `self`, if any.
    pub open spec fn created_after(self) -> Option<ResourceKind> {
        match self {
            ResourceKind::Storage => Some(ResourceKind::Compute),
            ResourceKind::Compute => Some(ResourceKind::Network),
            ResourceKind::Network => None,
        }
    }

    /// The kind that is removed next after `self`, if any.
    pub open spec fn removed_after(self) -> Option<ResourceKind> {
        match self {
            ResourceKind::Network => Some(ResourceKind::Compute),
            ResourceKind::Compute => Some(ResourceKind::Storage),
            ResourceKind::Storage => None,
        }
    }

    /// Position of the kind in the creation order.
    pub fn creation_rank(self) -> (r: u8)
        ensures
            r as nat == self.rank(),
            r < 3,
    {
        match self {
            ResourceKind::Storage => 0,
            ResourceKind::Compute => 1,
            ResourceKind::Network => 2,
        }
    }

    /// Position of the kind in the teardown order.
    pub fn teardown_rank(self) -> (r: u8)
        ensures
            r as nat == 2 - self.rank(),
    {
        2 - self.creation_rank()
    }

    /// Whether `self` is created before `other`.
    pub fn comes_before(self, other: ResourceKind) -> (before: bool)
        ensures
            before == self.precedes(other),
    {
        self.creation_rank() < other.creation_rank()
    }

    /// The kind that is created next after `self`, if any.
    pub fn next_to_create(self) -> (next: Option<ResourceKind>)
        ensures
            next == self.created_after(),
    {
        match self {
            ResourceKind::Storage => Some(ResourceKind::Compute),
            ResourceKind::Compute => Some(ResourceKind::Network),
            ResourceKind::Network => None,
        }
    }

    /// The kind that is removed next after `self`, if any.
    pub fn next_to_remove(self) -> (next: Option<ResourceKind>)
        ensures
            next == self.removed_after(),
    {
        match self {
            ResourceKind::Network => Some(ResourceKind::Compute),
            ResourceKind::Compute => Some(ResourceKind::Storage),
            ResourceKind::Storage => None,
        }
    }

    /// The kinds that are created before `self`, in creation order.
    pub fn created_before(self) -> (earlier: Vec<ResourceKind>)
        ensures
            earlier@ == Self::creation_order().take(self.rank() as int),
    {
        let mut earlier: Vec<ResourceKind> = Vec::new();
        if ResourceKind::Storage.comes_before(self) {
            earlier.push(ResourceKind::Storage);
        }
        if ResourceKind::Compute.comes_before(self) {
            earlier.push(ResourceKind::Compute);
        }
        assert(earlier@ =~= Self::creation_order().take(self.rank() as int));
        earlier
    }

    /// All kinds, in creation order.
    pub fn all_in_creation_order() -> (all: Vec<ResourceKind>)
        ensures
            all@ == Self::creation_order(),
    {
        let mut all: Vec<ResourceKind> = Vec::new();
        all.push(ResourceKind::Storage);
        all.push(ResourceKind::Compute);
        all.push(ResourceKind::Network);
        assert(all@ =~= Self::creation_order());
        all
    }
}

/// Creation order is a strict total order on the kinds: of two different
/// kinds exactly one precedes the other, none precedes itself, and what
/// precedes a predecessor precedes.
pub proof fn lemma_creation_order_is_total(a: ResourceKind, b: ResourceKind, c: ResourceKind)
    ensures
        !a.precedes(a),
        a != b ==> (a.precedes(b) <==> !b.precedes(a)),
        a.precedes(b) && b.precedes(c) ==> a.precedes(c),
        ResourceKind::Storage.precedes(ResourceKind::Compute),
        ResourceKind::Compute.precedes(ResourceKind::Network),
{
}

/// The creation order lists every kind once, at the position of its rank.
pub proof fn lemma_creation_order_by_rank(kind: ResourceKind)
    ensures
        ResourceKind::creation_order().len() == 3,
        ResourceKind::creation_order()[kind.rank() as int] == kind,
        ResourceKind::teardown_order()[2 - kind.rank()] == kind,
{
}

/// Teardown runs through the kinds in the reverse of the creation order.
pub proof fn lemma_teardown_reverses_creation()
    ensures
        ResourceKind::teardown_order() == ResourceKind::creation_order().reverse(),
        forall|a: ResourceKind, b: ResourceKind|
            a.removed_after() == Some(b) <==> b.created_after() == Some(a),
        forall|a: ResourceKind, b: ResourceKind|
            a.created_after() == Some(b) <==> b.rank() == a.rank() + 1,
{
    assert(ResourceKind::teardown_order() =~= ResourceKind::creation_order().reverse());
}

} // verus!
