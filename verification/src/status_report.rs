//! The status document of one cluster, and the query on it.

use vstd::prelude::*;
use crate::identifier::FeatureId;

verus! {

/// The values of a list of texts, in order.
pub open spec fn text_views(texts: Seq<String>) -> Seq<Seq<char>> {
    texts.map_values(|s: String| s@)
}

/// The values of a list of features, in order.
pub open spec fn feature_views(features: Seq<Feature>) -> Seq<FeatureView> {
    features.map_values(|f: Feature| f@)
}

/// The values of a list of feature sets, in order.
pub open spec fn feature_set_views(sets: Seq<FeatureSet>) -> Seq<FeatureSetView> {
    sets.map_values(|s: FeatureSet| s@)
}

/// The values of a list of software versions, in order.
pub open spec fn software_version_views(versions: Seq<SoftwareVersion>) -> Seq<
    SoftwareVersionView,
> {
    versions.map_values(|v: SoftwareVersion| v@)
}

/// Whether a cluster has activated a feature.
#[derive(Clone, Copy, Debug, PartialEq, Eq, Structural)]
pub enum FeatureStatus {
    Active,
    Inactive,
}

/// A share of a cluster, kept as the bit pattern of the IEEE-754 double
/// that the status document gives.
#[derive(Clone, Copy, Debug, PartialEq, Eq, Structural)]
pub struct Percent {
    pub bits: u64,
}

/// One feature as a cluster reports it.
#[derive(Clone, Debug)]
pub struct Feature {
    pub id: FeatureId,
    pub description: String,
    pub status: FeatureStatus,
    pub since_slot: Option<u64>,
}

/// The mathematical value of a [`Feature`].
pub ghost struct FeatureView {
    pub id: Seq<u8>,
    pub description: Seq<char>,
    pub status: FeatureStatus,
    pub since_slot: Option<u64>,
}

impl View for Feature {
    type V = FeatureView;

    open spec fn view(&self) -> FeatureView {
        FeatureView {
            id: self.id@,
            description: self.description@,
            status: self.status,
            since_slot: self.since_slot,
        }
    }
}

impl FeatureView {
    /// Whether this entry says that the feature `id` is active.
    pub open spec fn activates(self, id: Seq<u8>) -> bool {
        self.id == id && self.status == FeatureStatus::Active
    }
}

/// The share of a cluster that runs one feature set.
#[derive(Clone, Debug)]
pub struct FeatureSet {
    pub software_versions: Vec<String>,
    pub feature_set: u64,
    pub stake_percent: Percent,
    pub rpc_percent: Percent,
}

/// The mathematical value of a [`FeatureSet`].
pub ghost struct FeatureSetView {
    pub software_versions: Seq<Seq<char>>,
    pub feature_set: u64,
    pub stake_percent: Percent,
    pub rpc_percent: Percent,
}

impl View for FeatureSet {
    type V = FeatureSetView;

    open spec fn view(&self) -> FeatureSetView {
        FeatureSetView {
            software_versions: text_views(self.software_versions@),
            feature_set: self.feature_set,
            stake_percent: self.stake_percent,
            rpc_percent: self.rpc_percent,
        }
    }
}

/// The feature sets that a cluster runs.
#[derive(Clone, Debug)]
pub struct ClusterFeatureSets {
    pub tool_feature_set: u64,
    pub feature_sets: Vec<FeatureSet>,
}

/// The mathematical value of a [`ClusterFeatureSets`].
pub ghost struct ClusterFeatureSetsView {
    pub tool_feature_set: u64,
    pub feature_sets: Seq<FeatureSetView>,
}

impl View for ClusterFeatureSets {
    type V = ClusterFeatureSetsView;

    open spec fn view(&self) -> ClusterFeatureSetsView {
        ClusterFeatureSetsView {
            tool_feature_set: self.tool_feature_set,
            feature_sets: feature_set_views(self.feature_sets@),
        }
    }
}

/// The share of a cluster that runs one software version.
#[derive(Clone, Debug)]
pub struct SoftwareVersion {
    pub software_version: String,
    pub stake_percent: Percent,
    pub rpc_percent: Percent,
}

/// The mathematical value of a [`SoftwareVersion`].
pub ghost struct SoftwareVersionView {
    pub software_version: Seq<char>,
    pub stake_percent: Percent,
    pub rpc_percent: Percent,
}

impl View for SoftwareVersion {
    type V = SoftwareVersionView;

    open spec fn view(&self) -> SoftwareVersionView {
        SoftwareVersionView {
            software_version: self.software_version@,
            stake_percent: self.stake_percent,
            rpc_percent: self.rpc_percent,
        }
    }
}

/// The software versions that a cluster runs.
#[derive(Clone, Debug)]
pub struct ClusterSoftwareVersions {
    pub tool_software_version: String,
    pub software_versions: Vec<SoftwareVersion>,
}

/// The mathematical value of a [`ClusterSoftwareVersions`].
pub ghost struct ClusterSoftwareVersionsView {
    pub tool_software_version: Seq<char>,
    pub software_versions: Seq<SoftwareVersionView>,
}

impl View for ClusterSoftwareVersions {
    type V = ClusterSoftwareVersionsView;

    open spec fn view(&self) -> ClusterSoftwareVersionsView {
        ClusterSoftwareVersionsView {
            tool_software_version: self.tool_software_version@,
            software_versions: software_version_views(self.software_versions@),
        }
    }
}

/// What one cluster reports of its features.
#[derive(Clone, Debug)]
pub struct FeatureStatusReport {
    pub features: Vec<Feature>,
    pub feature_activation_allowed: bool,
    pub cluster_feature_sets: ClusterFeatureSets,
    pub cluster_software_versions: ClusterSoftwareVersions,
}

/// The mathematical value of a [`FeatureStatusReport`].
pub ghost struct ReportView {
    pub features: Seq<FeatureView>,
    pub feature_activation_allowed: bool,
    pub cluster_feature_sets: ClusterFeatureSetsView,
    pub cluster_software_versions: ClusterSoftwareVersionsView,
}

impl ReportView {
    /// Some entry of the report has the identifier `id` and is active.
    /// An identifier may occur more than once: one active entry is enough.
    pub open spec fn is_active(self, id: Seq<u8>) -> bool {
        exists|i: int| 0 <= i < self.features.len() && (#[trigger] self.features[i]).activates(id)
    }
}

impl View for FeatureStatusReport {
    type V = ReportView;

    open spec fn view(&self) -> ReportView {
        ReportView {
            features: feature_views(self.features@),
            feature_activation_allowed: self.feature_activation_allowed,
            cluster_feature_sets: self.cluster_feature_sets@,
            cluster_software_versions: self.cluster_software_versions@,
        }
    }
}

impl FeatureStatusReport {
    /// Whether the report holds an active entry for `feature_id`.
    pub fn is_active(&self, feature_id: &FeatureId) -> (r: bool)
        ensures
            r == self@.is_active(feature_id@),
    {
        let n = self.features.len();
        let mut i: usize = 0;
        while i < n
            invariant
                i <= n,
                n == self.features@.len(),
                forall|j: int| 0 <= j < i ==> !(#[trigger] self@.features[j]).activates(feature_id@),
            decreases n - i,
        {
            let feature = &self.features[i];
            if feature.id.same(feature_id) && feature.status == FeatureStatus::Active {
                assert(self@.features[i as int].activates(feature_id@));
                return true;
            }
            i += 1;
        }
        false
    }
}

} // verus!
