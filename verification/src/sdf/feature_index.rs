//! References from placed symbols back to the features they came from.
use vstd::prelude::*;

verus! {

#[derive(Clone)]
pub struct RefIndexedSubfeature {
    pub index: usize,
    pub sortIndex: usize,
    pub sourceLayerName: String,
    pub bucketLeaderID: String,
    // Only used for symbol features
    pub bucketInstanceId: u32,
    pub collisionGroupId: u16,
}

#[derive(Clone)]
pub struct IndexedSubfeature {
    pub ref_: RefIndexedSubfeature,
    pub sourceLayerNameCopy: String,
    pub bucketLeaderIDCopy: String,
}

impl IndexedSubfeature {
    /// A copy of `indexedFeature` that belongs to the given bucket instance and collision group.
    pub fn new(indexedFeature: IndexedSubfeature, bucketInstanceId: u32, collisionGroupId: u16) -> (r:
        IndexedSubfeature)
        ensures
            r.ref_.index == indexedFeature.ref_.index,
            r.ref_.sortIndex == indexedFeature.ref_.sortIndex,
            r.ref_.sourceLayerName@ == indexedFeature.ref_.sourceLayerName@,
            r.ref_.bucketLeaderID@ == indexedFeature.ref_.bucketLeaderID@,
            r.ref_.bucketInstanceId == bucketInstanceId,
            r.ref_.collisionGroupId == collisionGroupId,
            r.sourceLayerNameCopy@ == indexedFeature.ref_.sourceLayerName@,
            r.bucketLeaderIDCopy@ == indexedFeature.ref_.bucketLeaderID@,
    {
        IndexedSubfeature {
            ref_: RefIndexedSubfeature {
                index: indexedFeature.ref_.index,
                sortIndex: indexedFeature.ref_.sortIndex,
                sourceLayerName: indexedFeature.ref_.sourceLayerName.clone(),
                bucketLeaderID: indexedFeature.ref_.bucketLeaderID.clone(),
                bucketInstanceId,
                collisionGroupId,
            },
            sourceLayerNameCopy: indexedFeature.ref_.sourceLayerName.clone(),
            bucketLeaderIDCopy: indexedFeature.ref_.bucketLeaderID.clone(),
        }
    }
}

} // verus!
