//! The value that identifies one deployable workload.

use vstd::prelude::*;

verus! {

/// What a `WorkloadInstance` stands for.
pub struct InstanceView {
    pub name: Seq<char>,
    pub namespace: Seq<char>,
    pub storage_size_gib: nat,
}

impl InstanceView {
    /// Name and namespace are not empty and the storage size is positive.
    pub open spec fn valid(self) -> bool {
        &&& self.name.len() > 0
        &&& self.namespace.len() > 0
        &&& self.storage_size_gib > 0
    }
}

/// One named, namespaced deployment of the backup service, with the size of
/// its storage in GiB. The value is immutable, and every value is valid.
#[derive(Debug, PartialEq, Eq)]
pub struct WorkloadInstance {
    name: String,
    namespace: String,
    storage_size_gib: u32,
}

impl View for WorkloadInstance {
    type V = InstanceView;

    closed spec fn view(&self) -> InstanceView {
        InstanceView {
            name: self.name@,
            namespace: self.namespace@,
            storage_size_gib: self.storage_size_gib as nat,
        }
    }
}

impl Clone for WorkloadInstance {
    fn clone(&self) -> (copy: Self)
        ensures
            copy@ == self@,
    {
        proof {
            use_type_invariant(self);
        }
        WorkloadInstance {
            name: self.name.clone(),
            namespace: self.namespace.clone(),
            storage_size_gib: self.storage_size_gib,
        }
    }
}

impl WorkloadInstance {
    #[verifier::type_invariant]
    spec fn well_formed(&self) -> bool {
        self@.valid()
    }

    /// Makes an instance, or `None` where the name or the namespace is empty
    /// or the size is zero.
    pub fn new(name: &str, namespace: &str, storage_size_gib: u32) -> (made: Option<
        WorkloadInstance,
    >)
        ensures
            made is Some <==> name@.len() > 0 && namespace@.len() > 0 && storage_size_gib > 0,
            made matches Some(instance) ==> instance@ == (InstanceView {
                name: name@,
                namespace: namespace@,
                storage_size_gib: storage_size_gib as nat,
            }),
    {
        if name.is_empty() || namespace.is_empty() || storage_size_gib == 0 {
            None
        } else {
            Some(
                WorkloadInstance {
                    name: name.to_owned(),
                    namespace: namespace.to_owned(),
                    storage_size_gib,
                },
            )
        }
    }

    pub fn name(&self) -> (name: &str)
        ensures
            name@ == self@.name,
            self@.valid(),
    {
        proof {
            use_type_invariant(self);
        }
        self.name.as_str()
    }

    pub fn namespace(&self) -> (namespace: &str)
        ensures
            namespace@ == self@.namespace,
            self@.valid(),
    {
        proof {
            use_type_invariant(self);
        }
        self.namespace.as_str()
    }

    pub fn storage_size_gib(&self) -> (size: u32)
        ensures
            size as nat == self@.storage_size_gib,
            self@.valid(),
    {
        proof {
            use_type_invariant(self);
        }
        self.storage_size_gib
    }
}

/// The instance that the operator manages when it is given no other:
/// `pgmoneta` in namespace `default`, on 10 GiB.
pub open spec fn stock_instance() -> InstanceView {
    InstanceView { name: "pgmoneta"@, namespace: "default"@, storage_size_gib: 10 }
}

/// Makes the stock instance.
pub fn pgmoneta_instance() -> (instance: WorkloadInstance)
    ensures
        instance@ == stock_instance(),
{
    proof {
        reveal_strlit("pgmoneta");
        reveal_strlit("default");
    }
    WorkloadInstance {
        name: "pgmoneta".to_owned(),
        namespace: "default".to_owned(),
        storage_size_gib: 10,
    }
}

} // verus!
