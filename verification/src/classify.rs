//! Sorting the known features into four buckets by where they are active.

use vstd::prelude::*;
use crate::identifier::FeatureId;
use crate::network::Network;
use crate::status_report::{text_views, FeatureStatusReport, ReportView};

verus! {

/// A feature as the upstream definition names it.
#[derive(Clone, Debug)]
pub struct NamedIdentifier {
    pub name: String,
    pub id: FeatureId,
}

/// The mathematical value of a [`NamedIdentifier`].
pub ghost struct NamedIdentifierView {
    pub name: Seq<char>,
    pub id: Seq<u8>,
}

impl View for NamedIdentifier {
    type V = NamedIdentifierView;

    open spec fn view(&self) -> NamedIdentifierView {
        NamedIdentifierView { name: self.name@, id: self.id@ }
    }
}

/// The views of a list of named identifiers, in order.
pub open spec fn features_view(features: Seq<NamedIdentifier>) -> Seq<NamedIdentifierView> {
    features.map_values(|f: NamedIdentifier| f@)
}

/// The four buckets. Every feature falls into exactly one.
#[derive(Clone, Copy, Debug, PartialEq, Eq, Structural)]
pub enum Bucket {
    Inactive,
    ActiveTestnet,
    ActiveDevnet,
    ActiveMainnet,
}

/// Why a list of reports cannot be classified against.
#[derive(Clone, Copy, Debug, PartialEq, Eq, Structural)]
pub enum ConfigurationError {
    /// The list does not hold exactly three reports.
    WrongCount,
    /// The list holds three reports, but none for this cluster.
    MissingReport(Network),
}

/// One report for each cluster.
pub struct Reports<'a> {
    pub devnet: &'a FeatureStatusReport,
    pub testnet: &'a FeatureStatusReport,
    pub mainnet_beta: &'a FeatureStatusReport,
}

/// The mathematical value of a [`Reports`].
pub ghost struct ReportsView {
    pub devnet: ReportView,
    pub testnet: ReportView,
    pub mainnet_beta: ReportView,
}

impl<'a> View for Reports<'a> {
    type V = ReportsView;

    open spec fn view(&self) -> ReportsView {
        ReportsView {
            devnet: self.devnet@,
            testnet: self.testnet@,
            mainnet_beta: self.mainnet_beta@,
        }
    }
}

impl ReportsView {
    /// The bucket of the feature `id`: activity on mainnet-beta counts
    /// before activity on devnet, and that before activity on testnet.
    pub open spec fn bucket_of(self, id: Seq<u8>) -> Bucket {
        if self.mainnet_beta.is_active(id) {
            Bucket::ActiveMainnet
        } else if self.devnet.is_active(id) {
            Bucket::ActiveDevnet
        } else if self.testnet.is_active(id) {
            Bucket::ActiveTestnet
        } else {
            Bucket::Inactive
        }
    }
}

/// The text under which a feature is listed: its name and the call that
/// yields its identifier.
pub open spec fn label_of(name: Seq<char>) -> Seq<char> {
    name + "::id()"@
}

/// The positions, among the first `n` features, of those that fall into
/// bucket `b`, in rising order.
pub open spec fn bucket_positions(
    features: Seq<NamedIdentifierView>,
    reports: ReportsView,
    b: Bucket,
    n: int,
) -> Seq<int>
    decreases n,
{
    if n <= 0 {
        Seq::empty()
    } else {
        let before = bucket_positions(features, reports, b, n - 1);
        if reports.bucket_of(features[n - 1].id) == b {
            before.push(n - 1)
        } else {
            before
        }
    }
}

/// The labels of the features at the given positions.
pub open spec fn labels_at(features: Seq<NamedIdentifierView>, positions: Seq<int>) -> Seq<
    Seq<char>,
> {
    positions.map_values(|i: int| label_of(features[i].name))
}

/// The labels of bucket `b`: those of the features that fall into it, in
/// the order of the features.
pub open spec fn bucket_labels(
    features: Seq<NamedIdentifierView>,
    reports: ReportsView,
    b: Bucket,
) -> Seq<Seq<char>> {
    labels_at(features, bucket_positions(features, reports, b, features.len() as int))
}

/// The labels of the features, bucket by bucket.
#[derive(Clone, Debug)]
pub struct Classification {
    pub inactive: Vec<String>,
    pub active_testnet: Vec<String>,
    pub active_devnet: Vec<String>,
    pub active_mainnet: Vec<String>,
}

/// The mathematical value of a [`Classification`].
pub ghost struct ClassificationView {
    pub inactive: Seq<Seq<char>>,
    pub active_testnet: Seq<Seq<char>>,
    pub active_devnet: Seq<Seq<char>>,
    pub active_mainnet: Seq<Seq<char>>,
}

impl View for Classification {
    type V = ClassificationView;

    open spec fn view(&self) -> ClassificationView {
        ClassificationView {
            inactive: text_views(self.inactive@),
            active_testnet: text_views(self.active_testnet@),
            active_devnet: text_views(self.active_devnet@),
            active_mainnet: text_views(self.active_mainnet@),
        }
    }
}

impl ClassificationView {
    /// The labels of one bucket.
    pub open spec fn bucket(self, b: Bucket) -> Seq<Seq<char>> {
        match b {
            Bucket::Inactive => self.inactive,
            Bucket::ActiveTestnet => self.active_testnet,
            Bucket::ActiveDevnet => self.active_devnet,
            Bucket::ActiveMainnet => self.active_mainnet,
        }
    }
}

/// The classification of `features` against `reports`.
pub open spec fn classification_of(
    features: Seq<NamedIdentifierView>,
    reports: ReportsView,
) -> ClassificationView {
    ClassificationView {
        inactive: bucket_labels(features, reports, Bucket::Inactive),
        active_testnet: bucket_labels(features, reports, Bucket::ActiveTestnet),
        active_devnet: bucket_labels(features, reports, Bucket::ActiveDevnet),
        active_mainnet: bucket_labels(features, reports, Bucket::ActiveMainnet),
    }
}

/// The first report of the list for `network`, if there is one.
pub open spec fn first_report_for(
    reports: Seq<(Network, FeatureStatusReport)>,
    network: Network,
) -> Option<int> {
    if exists|i: int| 0 <= i < reports.len() && (#[trigger] reports[i]).0 == network {
        Some(
            choose|i: int|
                0 <= i < reports.len() && (#[trigger] reports[i]).0 == network && forall|j: int|
                    0 <= j < i ==> (#[trigger] reports[j]).0 != network,
        )
    } else {
        None
    }
}

/// What selecting one report per cluster from a list comes to.
pub open spec fn selection_of(reports: Seq<(Network, FeatureStatusReport)>) -> Result<
    ReportsView,
    ConfigurationError,
> {
    if reports.len() != 3 {
        Err(ConfigurationError::WrongCount)
    } else if first_report_for(reports, Network::Devnet) is None {
        Err(ConfigurationError::MissingReport(Network::Devnet))
    } else if first_report_for(reports, Network::Testnet) is None {
        Err(ConfigurationError::MissingReport(Network::Testnet))
    } else if first_report_for(reports, Network::MainnetBeta) is None {
        Err(ConfigurationError::MissingReport(Network::MainnetBeta))
    } else {
        Ok(
            ReportsView {
                devnet: reports[first_report_for(reports, Network::Devnet).unwrap()].1@,
                testnet: reports[first_report_for(reports, Network::Testnet).unwrap()].1@,
                mainnet_beta: reports[first_report_for(reports, Network::MainnetBeta).unwrap()].1@,
            },
        )
    }
}

/// Finds the first report of the list for `network`.
fn find_report(reports: &[(Network, FeatureStatusReport)], network: Network) -> (r: Option<usize>)
    ensures
        match r {
            Some(i) => first_report_for(reports@, network) == Some(i as int) && i < reports@.len()
                && reports@[i as int].0 == network,
            None => first_report_for(reports@, network) is None,
        },
{
    let n = reports.len();
    let mut i: usize = 0;
    while i < n
        invariant
            i <= n,
            n == reports@.len(),
            forall|j: int| 0 <= j < i ==> (#[trigger] reports@[j]).0 != network,
        decreases n - i,
    {
        if reports[i].0 == network {
            proof {
                let s = reports@;
                let k = i as int;
                assert(0 <= k < s.len() && s[k].0 == network);
                let c = choose|c: int|
                    0 <= c < s.len() && (#[trigger] s[c]).0 == network && forall|j: int|
                        0 <= j < c ==> (#[trigger] s[j]).0 != network;
                assert(0 <= c < s.len() && s[c].0 == network && forall|j: int|
                    0 <= j < c ==> (#[trigger] s[j]).0 != network);
                assert(c == k) by {
                    if c < k {
                        assert(s[c].0 != network);
                    }
                    if k < c {
                        assert(s[k].0 != network);
                    }
                }
            }
            return Some(i);
        }
        i += 1;
    }
    None
}

impl<'a> Reports<'a> {
    /// Selects one report per cluster from a list. The list must hold
    /// exactly three reports and one for each cluster; otherwise the error
    /// says what is wrong with it.
    pub fn select(reports: &'a [(Network, FeatureStatusReport)]) -> (r: Result<
        Reports<'a>,
        ConfigurationError,
    >)
        ensures
            match r {
                Ok(sel) => selection_of(reports@) == Ok::<ReportsView, ConfigurationError>(sel@),
                Err(e) => selection_of(reports@) == Err::<ReportsView, ConfigurationError>(e),
            },
    {
        if reports.len() != 3 {
            return Err(ConfigurationError::WrongCount);
        }
        let devnet = match find_report(reports, Network::Devnet) {
            Some(i) => &reports[i].1,
            None => { return Err(ConfigurationError::MissingReport(Network::Devnet)); },
        };
        let testnet = match find_report(reports, Network::Testnet) {
            Some(i) => &reports[i].1,
            None => { return Err(ConfigurationError::MissingReport(Network::Testnet)); },
        };
        let mainnet_beta = match find_report(reports, Network::MainnetBeta) {
            Some(i) => &reports[i].1,
            None => { return Err(ConfigurationError::MissingReport(Network::MainnetBeta)); },
        };
        Ok(Reports { devnet, testnet, mainnet_beta })
    }

    /// The bucket of one feature. All three reports are asked, whatever the
    /// first answers are; then mainnet-beta counts before devnet, and devnet
    /// before testnet.
    pub fn bucket_of(&self, id: &FeatureId) -> (b: Bucket)
        ensures
            b == self@.bucket_of(id@),
    {
        let is_active_mainnet = self.mainnet_beta.is_active(id);
        let is_active_devnet = self.devnet.is_active(id);
        let is_active_testnet = self.testnet.is_active(id);
        if is_active_mainnet {
            Bucket::ActiveMainnet
        } else if is_active_devnet {
            Bucket::ActiveDevnet
        } else if is_active_testnet {
            Bucket::ActiveTestnet
        } else {
            Bucket::Inactive
        }
    }
}

/// The label of a feature.
pub fn label_with_id(name: &String) -> (label: String)
    ensures
        label@ == label_of(name@),
{
    let mut label = name.clone();
    label.append("::id()");
    label
}

/// One more feature adds its label to its own bucket and to no other.
proof fn lemma_labels_step(
    features: Seq<NamedIdentifierView>,
    reports: ReportsView,
    b: Bucket,
    i: int,
)
    requires
        0 <= i < features.len(),
    ensures
        labels_at(features, bucket_positions(features, reports, b, i + 1)) == if reports.bucket_of(
            features[i].id,
        ) == b {
            labels_at(features, bucket_positions(features, reports, b, i)).push(
                label_of(features[i].name),
            )
        } else {
            labels_at(features, bucket_positions(features, reports, b, i))
        },
{
    let before = bucket_positions(features, reports, b, i);
    if reports.bucket_of(features[i].id) == b {
        assert(bucket_positions(features, reports, b, i + 1) == before.push(i));
        assert(labels_at(features, before.push(i)) =~= labels_at(features, before).push(
            label_of(features[i].name),
        ));
    } else {
        assert(bucket_positions(features, reports, b, i + 1) == before);
    }
}

/// Sorts the features into the four buckets, in one pass and in order.
pub fn classify(features: &Vec<NamedIdentifier>, reports: &Reports) -> (c: Classification)
    ensures
        c@ == classification_of(features_view(features@), reports@),
{
    let mut inactive: Vec<String> = Vec::new();
    let mut active_testnet: Vec<String> = Vec::new();
    let mut active_devnet: Vec<String> = Vec::new();
    let mut active_mainnet: Vec<String> = Vec::new();
    let ghost fv = features_view(features@);
    let ghost rv = reports@;
    let n = features.len();
    let mut i: usize = 0;
    while i < n
        invariant
            i <= n,
            n == features@.len(),
            fv == features_view(features@),
            rv == reports@,
            text_views(inactive@) == labels_at(
                fv,
                bucket_positions(fv, rv, Bucket::Inactive, i as int),
            ),
            text_views(active_testnet@) == labels_at(
                fv,
                bucket_positions(fv, rv, Bucket::ActiveTestnet, i as int),
            ),
            text_views(active_devnet@) == labels_at(
                fv,
                bucket_positions(fv, rv, Bucket::ActiveDevnet, i as int),
            ),
            text_views(active_mainnet@) == labels_at(
                fv,
                bucket_positions(fv, rv, Bucket::ActiveMainnet, i as int),
            ),
        decreases n - i,
    {
        let feature = &features[i];
        let bucket = reports.bucket_of(&feature.id);
        let label = label_with_id(&feature.name);
        proof {
            assert(fv[i as int] == feature@);
            lemma_labels_step(fv, rv, Bucket::Inactive, i as int);
            lemma_labels_step(fv, rv, Bucket::ActiveTestnet, i as int);
            lemma_labels_step(fv, rv, Bucket::ActiveDevnet, i as int);
            lemma_labels_step(fv, rv, Bucket::ActiveMainnet, i as int);
        }
        match bucket {
            Bucket::ActiveMainnet => {
                let ghost before = active_mainnet@;
                active_mainnet.push(label);
                assert(text_views(active_mainnet@) =~= text_views(before).push(label@));
            },
            Bucket::ActiveDevnet => {
                let ghost before = active_devnet@;
                active_devnet.push(label);
                assert(text_views(active_devnet@) =~= text_views(before).push(label@));
            },
            Bucket::ActiveTestnet => {
                let ghost before = active_testnet@;
                active_testnet.push(label);
                assert(text_views(active_testnet@) =~= text_views(before).push(label@));
            },
            Bucket::Inactive => {
                let ghost before = inactive@;
                inactive.push(label);
                assert(text_views(inactive@) =~= text_views(before).push(label@));
            },
        }
        i += 1;
    }
    Classification { inactive, active_testnet, active_devnet, active_mainnet }
}

/// The positions of the features that fall into bucket `b`, in rising order.
pub open spec fn positions_of(
    features: Seq<NamedIdentifierView>,
    reports: ReportsView,
    b: Bucket,
) -> Seq<int> {
    bucket_positions(features, reports, b, features.len() as int)
}

/// Among the first `n` features, the positions of a bucket rise, lie below
/// `n`, and are those of the features whose bucket it is.
proof fn lemma_positions(
    features: Seq<NamedIdentifierView>,
    reports: ReportsView,
    b: Bucket,
    n: int,
)
    requires
        0 <= n <= features.len(),
    ensures
        forall|k: int|
            0 <= k < bucket_positions(features, reports, b, n).len() ==> 0 <= (
            #[trigger] bucket_positions(features, reports, b, n)[k]) < n,
        forall|k: int|
            0 <= k < bucket_positions(features, reports, b, n).len() ==> reports.bucket_of(
                features[#[trigger] bucket_positions(features, reports, b, n)[k]].id,
            ) == b,
        forall|j: int, k: int|
            0 <= j < k < bucket_positions(features, reports, b, n).len() ==> (
            #[trigger] bucket_positions(features, reports, b, n)[j]) < (
            #[trigger] bucket_positions(features, reports, b, n)[k]),
        forall|i: int|
            0 <= i < n ==> (#[trigger] bucket_positions(features, reports, b, n).contains(i)
                <==> reports.bucket_of(features[i].id) == b),
    decreases n,
{
    if n > 0 {
        lemma_positions(features, reports, b, n - 1);
        let before = bucket_positions(features, reports, b, n - 1);
        let now = bucket_positions(features, reports, b, n);
        if reports.bucket_of(features[n - 1].id) == b {
            assert(now == before.push(n - 1));
            assert forall|i: int| 0 <= i < n implies (#[trigger] now.contains(i)
                <==> reports.bucket_of(features[i].id) == b) by {
                if i == n - 1 {
                    assert(now[now.len() - 1] == i);
                } else if before.contains(i) {
                    let k = choose|k: int| 0 <= k < before.len() && before[k] == i;
                    assert(now[k] == i);
                } else if now.contains(i) {
                    let k = choose|k: int| 0 <= k < now.len() && now[k] == i;
                    assert(before[k] == i);
                }
            }
        } else {
            assert(now == before);
        }
    }
}

/// The four buckets hold as many features as there are.
proof fn lemma_positions_count(features: Seq<NamedIdentifierView>, reports: ReportsView, n: int)
    requires
        0 <= n <= features.len(),
    ensures
        bucket_positions(features, reports, Bucket::Inactive, n).len() + bucket_positions(
            features,
            reports,
            Bucket::ActiveTestnet,
            n,
        ).len() + bucket_positions(features, reports, Bucket::ActiveDevnet, n).len()
            + bucket_positions(features, reports, Bucket::ActiveMainnet, n).len() == n,
    decreases n,
{
    if n > 0 {
        lemma_positions_count(features, reports, n - 1);
    }
}

/// The buckets part the features: every feature stands in one bucket, the
/// one that the reports give it, and in no other; no bucket holds a
/// feature twice; and together the buckets hold as many labels as there
/// are features. The label at each place of a bucket is that of the
/// feature whose position stands at that place.
pub proof fn lemma_buckets_partition(features: Seq<NamedIdentifierView>, reports: ReportsView)
    ensures
        forall|i: int, b: Bucket|
            0 <= i < features.len() ==> (#[trigger] positions_of(features, reports, b).contains(i)
                <==> b == reports.bucket_of(features[i].id)),
        forall|b: Bucket| #[trigger] positions_of(features, reports, b).no_duplicates(),
        forall|b: Bucket, k: int|
            0 <= k < positions_of(features, reports, b).len() ==> 0 <= (#[trigger] positions_of(
                features,
                reports,
                b,
            )[k]) < features.len(),
        forall|b: Bucket|
            (#[trigger] classification_of(features, reports).bucket(b)) == labels_at(
                features,
                positions_of(features, reports, b),
            ),
        classification_of(features, reports).inactive.len() + classification_of(
            features,
            reports,
        ).active_testnet.len() + classification_of(features, reports).active_devnet.len()
            + classification_of(features, reports).active_mainnet.len() == features.len(),
{
    let n = features.len() as int;
    lemma_positions_count(features, reports, n);
    assert forall|b: Bucket| #[trigger] positions_of(features, reports, b).no_duplicates() by {
        lemma_positions(features, reports, b, n);
    }
    assert forall|i: int, b: Bucket| 0 <= i < features.len() implies (#[trigger] positions_of(
        features,
        reports,
        b,
    ).contains(i) <==> b == reports.bucket_of(features[i].id)) by {
        lemma_positions(features, reports, b, n);
    }
    assert forall|b: Bucket, k: int|
        0 <= k < positions_of(features, reports, b).len() implies 0 <= (#[trigger] positions_of(
        features,
        reports,
        b,
    )[k]) < features.len() by {
        lemma_positions(features, reports, b, n);
    }
}

/// A bucket holds only features whose activity puts them there: the
/// feature behind each label of the mainnet bucket is active on
/// mainnet-beta; behind each of the devnet bucket, active on devnet and
/// not on mainnet-beta; behind each of the testnet bucket, active on
/// testnet and on neither of the others; behind each of the inactive
/// bucket, active on none.
pub proof fn lemma_bucket_priority(
    features: Seq<NamedIdentifierView>,
    reports: ReportsView,
    b: Bucket,
    k: int,
)
    requires
        0 <= k < classification_of(features, reports).bucket(b).len(),
    ensures
        0 <= positions_of(features, reports, b)[k] < features.len(),
        classification_of(features, reports).bucket(b)[k] == label_of(
            features[positions_of(features, reports, b)[k]].name,
        ),
        ({
            let id = features[positions_of(features, reports, b)[k]].id;
            match b {
                Bucket::ActiveMainnet => reports.mainnet_beta.is_active(id),
                Bucket::ActiveDevnet => reports.devnet.is_active(id)
                    && !reports.mainnet_beta.is_active(id),
                Bucket::ActiveTestnet => reports.testnet.is_active(id) && !reports.devnet.is_active(
                    id,
                ) && !reports.mainnet_beta.is_active(id),
                Bucket::Inactive => !reports.testnet.is_active(id) && !reports.devnet.is_active(id)
                    && !reports.mainnet_beta.is_active(id),
            }
        }),
{
    lemma_positions(features, reports, b, features.len() as int);
}

/// Within a bucket the labels stand in the order of the features: of two
/// labels, the earlier one belongs to the feature that comes earlier.
pub proof fn lemma_bucket_order(
    features: Seq<NamedIdentifierView>,
    reports: ReportsView,
    b: Bucket,
    j: int,
    k: int,
)
    requires
        0 <= j < k < classification_of(features, reports).bucket(b).len(),
    ensures
        0 <= positions_of(features, reports, b)[j] < positions_of(features, reports, b)[k]
            < features.len(),
        classification_of(features, reports).bucket(b)[j] == label_of(
            features[positions_of(features, reports, b)[j]].name,
        ),
        classification_of(features, reports).bucket(b)[k] == label_of(
            features[positions_of(features, reports, b)[k]].name,
        ),
{
    lemma_positions(features, reports, b, features.len() as int);
}

} // verus!
