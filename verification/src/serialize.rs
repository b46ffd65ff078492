//! Writing a report as a status document, so that reading gives it back.

use vstd::prelude::*;
use crate::document::{
    cluster_feature_sets_of, cluster_software_versions_of, each, feature_of, feature_set_of,
    report_of, software_version_of, text_item, Field, FormatError,
};
use crate::identifier::{pubkey_from_text, pubkey_to_text, IdError};
use crate::json::{
    lemma_members_view, list_view, member_of, members_view, Json, JsonNumber, JsonView,
};
use crate::status_report::{
    feature_set_views, feature_views, software_version_views, text_views, ClusterFeatureSets,
    ClusterFeatureSetsView, ClusterSoftwareVersions, ClusterSoftwareVersionsView, Feature,
    FeatureSet, FeatureSetView, FeatureStatus, FeatureStatusReport, FeatureView, Percent,
    ReportView, SoftwareVersion, SoftwareVersionView,
};

verus! {

/// An unsigned integer as a value of the document.
pub open spec fn unsigned_json(n: u64) -> JsonView {
    JsonView::Number(JsonNumber { unsigned: Some(n), float_bits: None })
}

/// A share as a value of the document.
pub open spec fn percent_json(p: Percent) -> JsonView {
    JsonView::Number(JsonNumber { unsigned: None, float_bits: Some(p.bits) })
}

/// The word of the document for a status.
pub open spec fn status_text(status: FeatureStatus) -> Seq<char> {
    match status {
        FeatureStatus::Active => "active"@,
        FeatureStatus::Inactive => "inactive"@,
    }
}

/// A feature as an object of the document. A feature without a slot
/// has `null` in its place.
pub open spec fn feature_json(f: FeatureView) -> JsonView {
    JsonView::Object(
        seq![
            (Field::Id.key(), JsonView::Text(pubkey_to_text(f.id))),
            (Field::Description.key(), JsonView::Text(f.description)),
            (Field::Status.key(), JsonView::Text(status_text(f.status))),
            (
                Field::SinceSlot.key(),
                match f.since_slot {
                    Some(n) => unsigned_json(n),
                    None => JsonView::Null,
                },
            ),
        ],
    )
}

/// A feature set as an object of the document.
pub open spec fn feature_set_json(s: FeatureSetView) -> JsonView {
    JsonView::Object(
        seq![
            (
                Field::SoftwareVersions.key(),
                JsonView::List(s.software_versions.map_values(|t: Seq<char>| JsonView::Text(t))),
            ),
            (Field::FeatureSet.key(), unsigned_json(s.feature_set)),
            (Field::StakePercent.key(), percent_json(s.stake_percent)),
            (Field::RpcPercent.key(), percent_json(s.rpc_percent)),
        ],
    )
}

/// A cluster's feature sets as an object of the document.
pub open spec fn cluster_feature_sets_json(c: ClusterFeatureSetsView) -> JsonView {
    JsonView::Object(
        seq![
            (Field::ToolFeatureSet.key(), unsigned_json(c.tool_feature_set)),
            (
                Field::FeatureSets.key(),
                JsonView::List(c.feature_sets.map_values(|s: FeatureSetView| feature_set_json(s))),
            ),
        ],
    )
}

/// A software version as an object of the document.
pub open spec fn software_version_json(v: SoftwareVersionView) -> JsonView {
    JsonView::Object(
        seq![
            (Field::SoftwareVersion.key(), JsonView::Text(v.software_version)),
            (Field::StakePercent.key(), percent_json(v.stake_percent)),
            (Field::RpcPercent.key(), percent_json(v.rpc_percent)),
        ],
    )
}

/// A cluster's software versions as an object of the document.
pub open spec fn cluster_software_versions_json(c: ClusterSoftwareVersionsView) -> JsonView {
    JsonView::Object(
        seq![
            (Field::ToolSoftwareVersion.key(), JsonView::Text(c.tool_software_version)),
            (
                Field::SoftwareVersions.key(),
                JsonView::List(
                    c.software_versions.map_values(
                        |v: SoftwareVersionView| software_version_json(v),
                    ),
                ),
            ),
        ],
    )
}

/// A report as a status document.
pub open spec fn report_json(r: ReportView) -> JsonView {
    JsonView::Object(
        seq![
            (
                Field::Features.key(),
                JsonView::List(r.features.map_values(|f: FeatureView| feature_json(f))),
            ),
            (Field::FeatureActivationAllowed.key(), JsonView::Bool(r.feature_activation_allowed)),
            (Field::ClusterFeatureSets.key(), cluster_feature_sets_json(r.cluster_feature_sets)),
            (
                Field::ClusterSoftwareVersions.key(),
                cluster_software_versions_json(r.cluster_software_versions),
            ),
        ],
    )
}

/// Whether the text that is written for an identifier is read back as it.
pub open spec fn reread(id: Seq<u8>) -> bool {
    pubkey_from_text(pubkey_to_text(id)) == Ok::<Seq<u8>, IdError>(id)
}

/// The member at `k` is the one found for its key where no member before
/// it has that key.
pub proof fn lemma_member_at(members: Seq<(Seq<char>, JsonView)>, k: int)
    requires
        0 <= k < members.len(),
        forall|j: int| 0 <= j < k ==> (#[trigger] members[j]).0 != members[k].0,
    ensures
        member_of(members, members[k].0) == Some(members[k].1),
{
    reveal(member_of);
    let key = members[k].0;
    let c = choose|c: int|
        0 <= c < members.len() && (#[trigger] members[c]).0 == key && forall|j: int|
            0 <= j < c ==> (#[trigger] members[j]).0 != key;
    assert(0 <= c < members.len() && members[c].0 == key && forall|j: int|
        0 <= j < c ==> (#[trigger] members[j]).0 != key);
    if c < k {
        assert(members[c].0 != key);
    }
    if k < c {
        assert(members[k].0 != key);
    }
}

/// A list whose items each read as the value at their place reads as the
/// list of those values.
pub proof fn lemma_each_reads<T>(
    docs: Seq<JsonView>,
    one: spec_fn(JsonView) -> Result<T, FormatError>,
    values: Seq<T>,
)
    requires
        docs.len() == values.len(),
        forall|i: int| 0 <= i < docs.len() ==> one(#[trigger] docs[i]) == Ok::<T, FormatError>(
            values[i],
        ),
    ensures
        each(docs, one) == Ok::<Seq<T>, FormatError>(values),
    decreases docs.len(),
{
    if docs.len() > 0 {
        lemma_each_reads(docs.drop_last(), one, values.drop_last());
        assert(one(docs[docs.len() - 1]) == Ok::<T, FormatError>(values[docs.len() - 1]));
        assert(values.drop_last().push(values.last()) =~= values);
    } else {
        assert(values =~= Seq::empty());
    }
}

/// Four members with different keys are each found by their key.
proof fn lemma_four_members(members: Seq<(Seq<char>, JsonView)>)
    requires
        members.len() == 4,
        members[0].0 != members[1].0,
        members[0].0 != members[2].0,
        members[0].0 != members[3].0,
        members[1].0 != members[2].0,
        members[1].0 != members[3].0,
        members[2].0 != members[3].0,
    ensures
        member_of(members, members[0].0) == Some(members[0].1),
        member_of(members, members[1].0) == Some(members[1].1),
        member_of(members, members[2].0) == Some(members[2].1),
        member_of(members, members[3].0) == Some(members[3].1),
{
    lemma_member_at(members, 0);
    lemma_member_at(members, 1);
    lemma_member_at(members, 2);
    lemma_member_at(members, 3);
}

/// Three members with different keys are each found by their key.
proof fn lemma_three_members(members: Seq<(Seq<char>, JsonView)>)
    requires
        members.len() == 3,
        members[0].0 != members[1].0,
        members[0].0 != members[2].0,
        members[1].0 != members[2].0,
    ensures
        member_of(members, members[0].0) == Some(members[0].1),
        member_of(members, members[1].0) == Some(members[1].1),
        member_of(members, members[2].0) == Some(members[2].1),
{
    lemma_member_at(members, 0);
    lemma_member_at(members, 1);
    lemma_member_at(members, 2);
}

/// Two members with different keys are each found by their key.
proof fn lemma_two_members(members: Seq<(Seq<char>, JsonView)>)
    requires
        members.len() == 2,
        members[0].0 != members[1].0,
    ensures
        member_of(members, members[0].0) == Some(members[0].1),
        member_of(members, members[1].0) == Some(members[1].1),
{
    lemma_member_at(members, 0);
    lemma_member_at(members, 1);
}

/// The length of each key, and the first letter of the two of equal
/// length that stand in one object.
proof fn lemma_key_lengths()
    ensures
        Field::Features.key().len() == 8,
        Field::FeatureActivationAllowed.key().len() == 24,
        Field::ClusterFeatureSets.key().len() == 18,
        Field::ClusterSoftwareVersions.key().len() == 23,
        Field::Id.key().len() == 2,
        Field::Description.key().len() == 11,
        Field::Status.key().len() == 6,
        Field::SinceSlot.key().len() == 9,
        Field::ToolFeatureSet.key().len() == 14,
        Field::FeatureSets.key().len() == 11,
        Field::SoftwareVersions.key().len() == 16,
        Field::FeatureSet.key().len() == 10,
        Field::StakePercent.key().len() == 12,
        Field::RpcPercent.key().len() == 10,
        Field::ToolSoftwareVersion.key().len() == 19,
        Field::SoftwareVersion.key().len() == 15,
        Field::FeatureSet.key()[0] == 'f',
        Field::RpcPercent.key()[0] == 'r',
        status_text(FeatureStatus::Active).len() == 6,
        status_text(FeatureStatus::Inactive).len() == 8,
{
    reveal_strlit("features");
    reveal_strlit("featureActivationAllowed");
    reveal_strlit("clusterFeatureSets");
    reveal_strlit("clusterSoftwareVersions");
    reveal_strlit("id");
    reveal_strlit("description");
    reveal_strlit("status");
    reveal_strlit("sinceSlot");
    reveal_strlit("toolFeatureSet");
    reveal_strlit("featureSets");
    reveal_strlit("softwareVersions");
    reveal_strlit("featureSet");
    reveal_strlit("stakePercent");
    reveal_strlit("rpcPercent");
    reveal_strlit("toolSoftwareVersion");
    reveal_strlit("softwareVersion");
    reveal_strlit("active");
    reveal_strlit("inactive");
}

/// Reading the object written for a feature gives the feature, where its
/// identifier's text is read back as it.
pub proof fn lemma_feature_round_trip(f: FeatureView)
    requires
        reread(f.id),
    ensures
        feature_of(feature_json(f)) == Ok::<FeatureView, FormatError>(f),
{
    lemma_key_lengths();
    lemma_four_members(feature_json(f)->Object_0);
}

/// Reading the object written for a feature set gives the feature set.
pub proof fn lemma_feature_set_round_trip(s: FeatureSetView)
    ensures
        feature_set_of(feature_set_json(s)) == Ok::<FeatureSetView, FormatError>(s),
{
    lemma_key_lengths();
    lemma_four_members(feature_set_json(s)->Object_0);
    let docs = s.software_versions.map_values(|t: Seq<char>| JsonView::Text(t));
    lemma_each_reads(
        docs,
        |item: JsonView| text_item(item, Field::SoftwareVersions),
        s.software_versions,
    );
}

/// Reading the object written for a cluster's feature sets gives them.
pub proof fn lemma_cluster_feature_sets_round_trip(c: ClusterFeatureSetsView)
    ensures
        cluster_feature_sets_of(cluster_feature_sets_json(c)) == Ok::<
            ClusterFeatureSetsView,
            FormatError,
        >(c),
{
    lemma_key_lengths();
    lemma_two_members(cluster_feature_sets_json(c)->Object_0);
    let docs = c.feature_sets.map_values(|s: FeatureSetView| feature_set_json(s));
    assert forall|i: int| 0 <= i < docs.len() implies feature_set_of(#[trigger] docs[i]) == Ok::<
        FeatureSetView,
        FormatError,
    >(c.feature_sets[i]) by {
        lemma_feature_set_round_trip(c.feature_sets[i]);
    }
    lemma_each_reads(docs, |doc: JsonView| feature_set_of(doc), c.feature_sets);
}

/// Reading the object written for a software version gives it.
pub proof fn lemma_software_version_round_trip(v: SoftwareVersionView)
    ensures
        software_version_of(software_version_json(v)) == Ok::<SoftwareVersionView, FormatError>(
            v,
        ),
{
    lemma_key_lengths();
    lemma_three_members(software_version_json(v)->Object_0);
}

/// Reading the object written for a cluster's software versions gives
/// them.
pub proof fn lemma_cluster_software_versions_round_trip(c: ClusterSoftwareVersionsView)
    ensures
        cluster_software_versions_of(cluster_software_versions_json(c)) == Ok::<
            ClusterSoftwareVersionsView,
            FormatError,
        >(c),
{
    lemma_key_lengths();
    lemma_two_members(cluster_software_versions_json(c)->Object_0);
    let docs = c.software_versions.map_values(|v: SoftwareVersionView| software_version_json(v));
    assert forall|i: int| 0 <= i < docs.len() implies software_version_of(#[trigger] docs[i])
        == Ok::<SoftwareVersionView, FormatError>(c.software_versions[i]) by {
        lemma_software_version_round_trip(c.software_versions[i]);
    }
    lemma_each_reads(docs, |doc: JsonView| software_version_of(doc), c.software_versions);
}

/// Whether the text written for the identifier of each feature of a
/// report is read back as that identifier.
pub open spec fn identifiers_reread(r: ReportView) -> bool {
    forall|i: int| 0 <= i < r.features.len() ==> reread((#[trigger] r.features[i]).id)
}

/// A report that is written as a status document and read again is the
/// same report, where the text of each of its identifiers is read back as
/// the identifier; so every identifier is active in the one exactly if it
/// is in the other.
pub proof fn lemma_report_round_trip(r: ReportView)
    requires
        identifiers_reread(r),
    ensures
        report_of(report_json(r)) == Ok::<ReportView, FormatError>(r),
        forall|id: Seq<u8>|
            report_of(report_json(r)).unwrap().is_active(id) == #[trigger] r.is_active(id),
{
    lemma_key_lengths();
    lemma_four_members(report_json(r)->Object_0);
    let docs = r.features.map_values(|f: FeatureView| feature_json(f));
    assert forall|i: int| 0 <= i < docs.len() implies feature_of(#[trigger] docs[i]) == Ok::<
        FeatureView,
        FormatError,
    >(r.features[i]) by {
        lemma_feature_round_trip(r.features[i]);
    }
    lemma_each_reads(docs, |doc: JsonView| feature_of(doc), r.features);
    lemma_cluster_feature_sets_round_trip(r.cluster_feature_sets);
    lemma_cluster_software_versions_round_trip(r.cluster_software_versions);
}

/// Writes an unsigned integer.
pub fn unsigned_to_json(n: u64) -> (j: Json)
    ensures
        j@ == unsigned_json(n),
{
    Json::Number(JsonNumber { unsigned: Some(n), float_bits: None })
}

/// Writes a share.
pub fn percent_to_json(p: Percent) -> (j: Json)
    ensures
        j@ == percent_json(p),
{
    Json::Number(JsonNumber { unsigned: None, float_bits: Some(p.bits) })
}

/// Writes a text.
pub fn text_to_json(text: &String) -> (j: Json)
    ensures
        j@ == JsonView::Text(text@),
{
    Json::Text(text.clone())
}

/// Makes a member of an object.
fn member(field: Field, value: Json) -> (m: (String, Json))
    ensures
        m.0@ == field.key(),
        m.1 == value,
{
    (String::from_str(field.name()), value)
}

impl FeatureStatus {
    /// The word of the document for the status.
    pub fn word(self) -> (r: &'static str)
        ensures
            r@ == status_text(self),
    {
        match self {
            FeatureStatus::Active => "active",
            FeatureStatus::Inactive => "inactive",
        }
    }
}

impl Feature {
    /// Writes the feature as an object of the document. Reading the
    /// object gives the feature back.
    pub fn to_json(&self) -> (doc: Json)
        ensures
            doc@ == feature_json(self@),
            reread(self@.id),
            feature_of(doc@) == Ok::<FeatureView, FormatError>(self@),
    {
        let mut members: Vec<(String, Json)> = Vec::new();
        members.push(member(Field::Id, Json::Text(self.id.text())));
        members.push(member(Field::Description, text_to_json(&self.description)));
        members.push(member(Field::Status, Json::Text(String::from_str(self.status.word()))));
        let slot = match self.since_slot {
            Some(n) => unsigned_to_json(n),
            None => Json::Null,
        };
        members.push(member(Field::SinceSlot, slot));
        proof {
            lemma_members_view(members@);
            assert(members_view(members@) =~= feature_json(self@)->Object_0);
            lemma_feature_round_trip(self@);
        }
        Json::Object(members)
    }
}

/// Writes the features of a report, in order.
pub fn features_to_json(values: &Vec<Feature>) -> (items: Vec<Json>)
    ensures
        list_view(items@) == feature_views(values@).map_values(|f: FeatureView| feature_json(f)),
        forall|j: int|
            0 <= j < values@.len() ==> reread((#[trigger] feature_views(values@)[j]).id),
{
    let ghost views = feature_views(values@);
    let n = values.len();
    let mut items: Vec<Json> = Vec::new();
    let mut i: usize = 0;
    assert(list_view(items@) =~= views.take(0).map_values(|f: FeatureView| feature_json(f)));
    while i < n
        invariant
            i <= n,
            n == values@.len(),
            views == feature_views(values@),
            list_view(items@) == views.take(i as int).map_values(|f: FeatureView| feature_json(f)),
            forall|j: int| 0 <= j < i ==> reread((#[trigger] views[j]).id),
        decreases n - i,
    {
        let item = values[i].to_json();
        let ghost before = items@;
        items.push(item);
        proof {
            assert(items@.drop_last() =~= before);
            assert(views.take(i + 1).map_values(|f: FeatureView| feature_json(f)) =~= views.take(
                i as int,
            ).map_values(|f: FeatureView| feature_json(f)).push(item@));
        }
        i += 1;
    }
    assert(views.take(n as int) =~= views);
    items
}

/// Writes a list of texts, in order.
pub fn texts_to_json(values: &Vec<String>) -> (items: Vec<Json>)
    ensures
        list_view(items@) == text_views(values@).map_values(|t: Seq<char>| JsonView::Text(t)),
{
    let ghost views = text_views(values@);
    let n = values.len();
    let mut items: Vec<Json> = Vec::new();
    let mut i: usize = 0;
    assert(list_view(items@) =~= views.take(0).map_values(|t: Seq<char>| JsonView::Text(t)));
    while i < n
        invariant
            i <= n,
            n == values@.len(),
            views == text_views(values@),
            list_view(items@) == views.take(i as int).map_values(|t: Seq<char>| JsonView::Text(t)),
        decreases n - i,
    {
        let item = text_to_json(&values[i]);
        let ghost before = items@;
        items.push(item);
        proof {
            assert(items@.drop_last() =~= before);
            assert(views.take(i + 1).map_values(|t: Seq<char>| JsonView::Text(t)) =~= views.take(
                i as int,
            ).map_values(|t: Seq<char>| JsonView::Text(t)).push(item@));
        }
        i += 1;
    }
    assert(views.take(n as int) =~= views);
    items
}

impl FeatureSet {
    /// Writes the feature set as an object of the document. Reading the
    /// object gives the feature set back.
    pub fn to_json(&self) -> (doc: Json)
        ensures
            doc@ == feature_set_json(self@),
            feature_set_of(doc@) == Ok::<FeatureSetView, FormatError>(self@),
    {
        let mut members: Vec<(String, Json)> = Vec::new();
        members.push(
            member(Field::SoftwareVersions, Json::List(texts_to_json(&self.software_versions))),
        );
        members.push(member(Field::FeatureSet, unsigned_to_json(self.feature_set)));
        members.push(member(Field::StakePercent, percent_to_json(self.stake_percent)));
        members.push(member(Field::RpcPercent, percent_to_json(self.rpc_percent)));
        proof {
            lemma_members_view(members@);
            assert(members_view(members@) =~= feature_set_json(self@)->Object_0);
            lemma_feature_set_round_trip(self@);
        }
        Json::Object(members)
    }
}

/// Writes a list of feature sets, in order.
pub fn feature_sets_to_json(values: &Vec<FeatureSet>) -> (items: Vec<Json>)
    ensures
        list_view(items@) == feature_set_views(values@).map_values(|s: FeatureSetView| feature_set_json(s)),
{
    let ghost views = feature_set_views(values@);
    let n = values.len();
    let mut items: Vec<Json> = Vec::new();
    let mut i: usize = 0;
    assert(list_view(items@) =~= views.take(0).map_values(|s: FeatureSetView| feature_set_json(s)));
    while i < n
        invariant
            i <= n,
            n == values@.len(),
            views == feature_set_views(values@),
            list_view(items@) == views.take(i as int).map_values(|s: FeatureSetView| feature_set_json(s)),
        decreases n - i,
    {
        let item = values[i].to_json();
        let ghost before = items@;
        items.push(item);
        proof {
            assert(items@.drop_last() =~= before);
            assert(views.take(i + 1).map_values(|s: FeatureSetView| feature_set_json(s)) =~= views.take(
                i as int,
            ).map_values(|s: FeatureSetView| feature_set_json(s)).push(item@));
        }
        i += 1;
    }
    assert(views.take(n as int) =~= views);
    items
}

impl ClusterFeatureSets {
    /// Writes the cluster's feature sets as an object of the document.
    pub fn to_json(&self) -> (doc: Json)
        ensures
            doc@ == cluster_feature_sets_json(self@),
    {
        let mut members: Vec<(String, Json)> = Vec::new();
        members.push(member(Field::ToolFeatureSet, unsigned_to_json(self.tool_feature_set)));
        members.push(
            member(Field::FeatureSets, Json::List(feature_sets_to_json(&self.feature_sets))),
        );
        proof {
            lemma_members_view(members@);
            assert(members_view(members@) =~= cluster_feature_sets_json(self@)->Object_0);
        }
        Json::Object(members)
    }
}

impl SoftwareVersion {
    /// Writes the software version as an object of the document.
    pub fn to_json(&self) -> (doc: Json)
        ensures
            doc@ == software_version_json(self@),
    {
        let mut members: Vec<(String, Json)> = Vec::new();
        members.push(member(Field::SoftwareVersion, text_to_json(&self.software_version)));
        members.push(member(Field::StakePercent, percent_to_json(self.stake_percent)));
        members.push(member(Field::RpcPercent, percent_to_json(self.rpc_percent)));
        proof {
            lemma_members_view(members@);
            assert(members_view(members@) =~= software_version_json(self@)->Object_0);
        }
        Json::Object(members)
    }
}

/// Writes a list of software versions, in order.
pub fn software_versions_to_json(values: &Vec<SoftwareVersion>) -> (items: Vec<Json>)
    ensures
        list_view(items@) == software_version_views(values@).map_values(|v: SoftwareVersionView| software_version_json(v)),
{
    let ghost views = software_version_views(values@);
    let n = values.len();
    let mut items: Vec<Json> = Vec::new();
    let mut i: usize = 0;
    assert(list_view(items@) =~= views.take(0).map_values(|v: SoftwareVersionView| software_version_json(v)));
    while i < n
        invariant
            i <= n,
            n == values@.len(),
            views == software_version_views(values@),
            list_view(items@) == views.take(i as int).map_values(|v: SoftwareVersionView| software_version_json(v)),
        decreases n - i,
    {
        let item = values[i].to_json();
        let ghost before = items@;
        items.push(item);
        proof {
            assert(items@.drop_last() =~= before);
            assert(views.take(i + 1).map_values(|v: SoftwareVersionView| software_version_json(v)) =~= views.take(
                i as int,
            ).map_values(|v: SoftwareVersionView| software_version_json(v)).push(item@));
        }
        i += 1;
    }
    assert(views.take(n as int) =~= views);
    items
}

impl ClusterSoftwareVersions {
    /// Writes the cluster's software versions as an object of the
    /// document.
    pub fn to_json(&self) -> (doc: Json)
        ensures
            doc@ == cluster_software_versions_json(self@),
    {
        let mut members: Vec<(String, Json)> = Vec::new();
        members.push(
            member(Field::ToolSoftwareVersion, text_to_json(&self.tool_software_version)),
        );
        members.push(
            member(
                Field::SoftwareVersions,
                Json::List(software_versions_to_json(&self.software_versions)),
            ),
        );
        proof {
            lemma_members_view(members@);
            assert(members_view(members@) =~= cluster_software_versions_json(self@)->Object_0);
        }
        Json::Object(members)
    }
}

impl FeatureStatusReport {
    /// Writes the report as a status document. Reading the document gives
    /// the report back: the same features with the same status, so the
    /// same answer of `is_active` for every identifier.
    pub fn to_json(&self) -> (doc: Json)
        ensures
            doc@ == report_json(self@),
            report_of(doc@) == Ok::<ReportView, FormatError>(self@),
            forall|id: Seq<u8>|
                report_of(doc@).unwrap().is_active(id) == #[trigger] self@.is_active(id),
    {
        let mut members: Vec<(String, Json)> = Vec::new();
        members.push(member(Field::Features, Json::List(features_to_json(&self.features))));
        members.push(
            member(Field::FeatureActivationAllowed, Json::Bool(self.feature_activation_allowed)),
        );
        members.push(member(Field::ClusterFeatureSets, self.cluster_feature_sets.to_json()));
        members.push(
            member(Field::ClusterSoftwareVersions, self.cluster_software_versions.to_json()),
        );
        proof {
            lemma_members_view(members@);
            assert(members_view(members@) =~= report_json(self@)->Object_0);
            lemma_report_round_trip(self@);
        }
        Json::Object(members)
    }
}

} // verus!
