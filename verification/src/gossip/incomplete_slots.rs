//! The record of slots a node is missing within an epoch.

use crate::primitives::Slot;
use vstd::prelude::*;

verus! {

/// How the list of missing slots is compressed.
#[derive(Clone, Copy, Debug, PartialEq, Eq, Structural)]
pub enum CompressionType {
    Uncompressed,
    GZip,
    BZip2,
}

impl Default for CompressionType {
    fn default() -> (c: Self)
        ensures
            c == CompressionType::Uncompressed,
    {
        CompressionType::Uncompressed
    }
}

/// The slots a node is missing, from `first` on, as a compressed list.
#[derive(Clone, Debug)]
pub struct EpochIncompleteSlots {
    pub first: Slot,
    pub compression: CompressionType,
    pub compressed_list: Vec<u8>,
}

impl Default for EpochIncompleteSlots {
    /// No missing slots: slot 0, uncompressed, an empty list.
    fn default() -> (e: Self)
        ensures
            e.first == 0,
            e.compression == CompressionType::Uncompressed,
            e.compressed_list@ == Seq::<u8>::empty(),
    {
        EpochIncompleteSlots {
            first: 0,
            compression: CompressionType::default(),
            compressed_list: Vec::new(),
        }
    }
}

} // verus!
