//! The partitions of durable memory that the stores occupy.
use vstd::prelude::*;

verus! {

/// A region of durable memory.
#[derive(Debug, Clone, Copy, PartialEq, Eq, Structural)]
pub enum MemoryPartition {
    TaskTimer,
    TextCounter,
    EncryptedTexts,
    IdentifiedUsers,
    AnonymousUsers,
    OneTimeKeys,
}

/// The number of each partition.
pub open spec fn partition_id(p: MemoryPartition) -> u8 {
    match p {
        MemoryPartition::TaskTimer => 1,
        MemoryPartition::TextCounter => 2,
        MemoryPartition::EncryptedTexts => 3,
        MemoryPartition::IdentifiedUsers => 4,
        MemoryPartition::AnonymousUsers => 5,
        MemoryPartition::OneTimeKeys => 6,
    }
}

impl MemoryPartition {
    /// The partition's number; distinct partitions have distinct numbers.
    pub fn id(self) -> (r: u8)
        ensures
            r == partition_id(self),
    {
        match self {
            MemoryPartition::TaskTimer => 1,
            MemoryPartition::TextCounter => 2,
            MemoryPartition::EncryptedTexts => 3,
            MemoryPartition::IdentifiedUsers => 4,
            MemoryPartition::AnonymousUsers => 5,
            MemoryPartition::OneTimeKeys => 6,
        }
    }
}

/// Distinct partitions never share a number.
pub proof fn lemma_partition_ids_distinct(a: MemoryPartition, b: MemoryPartition)
    ensures
        partition_id(a) == partition_id(b) ==> a == b,
{
}

} // verus!
