//! The status document: a report as a JSON object, and how it is read.
//!
//! ```text
//! { "features": [ { "id": text, "description": text,
//!                   "status": "active" | "inactive", "sinceSlot": integer | null }, ... ],
//!   "featureActivationAllowed": boolean,
//!   "clusterFeatureSets": { "toolFeatureSet": integer,
//!       "featureSets": [ { "softwareVersions": [ text, ... ], "featureSet": integer,
//!                          "stakePercent": number, "rpcPercent": number }, ... ] },
//!   "clusterSoftwareVersions": { "toolSoftwareVersion": text,
//!       "softwareVersions": [ { "softwareVersion": text,
//!                               "stakePercent": number, "rpcPercent": number }, ... ] } }
//! ```
//!
//! Members that are not named here are passed over. `sinceSlot` may be
//! missing; every other member must be there.

use vstd::prelude::*;
use crate::identifier::{pubkey_from_text, FeatureId, IdError};
use crate::json::{lemma_list_view, list_view, Json, JsonView};
use crate::status_report::{
    feature_set_views, feature_views, software_version_views, text_views, ClusterFeatureSets,
    ClusterFeatureSetsView, ClusterSoftwareVersions, ClusterSoftwareVersionsView, Feature,
    FeatureSet, FeatureSetView, FeatureStatus, FeatureStatusReport, FeatureView, Percent,
    ReportView, SoftwareVersion, SoftwareVersionView,
};

verus! {

/// The members of a status document.
#[derive(Clone, Copy, Debug, PartialEq, Eq, Structural)]
pub enum Field {
    Features,
    FeatureActivationAllowed,
    ClusterFeatureSets,
    ClusterSoftwareVersions,
    Id,
    Description,
    Status,
    SinceSlot,
    ToolFeatureSet,
    FeatureSets,
    SoftwareVersions,
    FeatureSet,
    StakePercent,
    RpcPercent,
    ToolSoftwareVersion,
    SoftwareVersion,
}

impl Field {
    /// The key of the member in the document.
    pub open spec fn key(self) -> Seq<char> {
        match self {
            Field::Features => "features"@,
            Field::FeatureActivationAllowed => "featureActivationAllowed"@,
            Field::ClusterFeatureSets => "clusterFeatureSets"@,
            Field::ClusterSoftwareVersions => "clusterSoftwareVersions"@,
            Field::Id => "id"@,
            Field::Description => "description"@,
            Field::Status => "status"@,
            Field::SinceSlot => "sinceSlot"@,
            Field::ToolFeatureSet => "toolFeatureSet"@,
            Field::FeatureSets => "featureSets"@,
            Field::SoftwareVersions => "softwareVersions"@,
            Field::FeatureSet => "featureSet"@,
            Field::StakePercent => "stakePercent"@,
            Field::RpcPercent => "rpcPercent"@,
            Field::ToolSoftwareVersion => "toolSoftwareVersion"@,
            Field::SoftwareVersion => "softwareVersion"@,
        }
    }

    /// The key of the member in the document.
    pub fn name(self) -> (r: &'static str)
        ensures
            r@ == self.key(),
    {
        match self {
            Field::Features => "features",
            Field::FeatureActivationAllowed => "featureActivationAllowed",
            Field::ClusterFeatureSets => "clusterFeatureSets",
            Field::ClusterSoftwareVersions => "clusterSoftwareVersions",
            Field::Id => "id",
            Field::Description => "description",
            Field::Status => "status",
            Field::SinceSlot => "sinceSlot",
            Field::ToolFeatureSet => "toolFeatureSet",
            Field::FeatureSets => "featureSets",
            Field::SoftwareVersions => "softwareVersions",
            Field::FeatureSet => "featureSet",
            Field::StakePercent => "stakePercent",
            Field::RpcPercent => "rpcPercent",
            Field::ToolSoftwareVersion => "toolSoftwareVersion",
            Field::SoftwareVersion => "softwareVersion",
        }
    }
}

/// Why a text is not a status document.
#[derive(Clone, Copy, Debug, PartialEq, Eq, Structural)]
pub enum FormatError {
    /// The text is not JSON.
    Syntax,
    /// A value that should be an object with members is none.
    NotAnObject,
    /// An object lacks a member that it must have.
    Missing(Field),
    /// A member, or an item of it, is not the kind of value that it must be.
    Malformed(Field),
    /// The identifier of a feature is not the text of a 32-byte key.
    Identifier(IdError),
}

/// The member `field` of an object that must have it.
pub open spec fn required(doc: JsonView, field: Field) -> Result<JsonView, FormatError> {
    if !(doc is Object) {
        Err(FormatError::NotAnObject)
    } else {
        match doc.field(field.key()) {
            Some(value) => Ok(value),
            None => Err(FormatError::Missing(field)),
        }
    }
}

/// The text of the member `field`.
pub open spec fn text_field(doc: JsonView, field: Field) -> Result<Seq<char>, FormatError> {
    match required(doc, field) {
        Ok(JsonView::Text(text)) => Ok(text),
        Ok(_) => Err(FormatError::Malformed(field)),
        Err(e) => Err(e),
    }
}

/// The unsigned integer of the member `field`.
pub open spec fn unsigned_field(doc: JsonView, field: Field) -> Result<u64, FormatError> {
    match required(doc, field) {
        Ok(JsonView::Number(number)) => match number.unsigned {
            Some(n) => Ok(n),
            None => Err(FormatError::Malformed(field)),
        },
        Ok(_) => Err(FormatError::Malformed(field)),
        Err(e) => Err(e),
    }
}

/// The share that the member `field` gives: any number that is a double.
pub open spec fn percent_field(doc: JsonView, field: Field) -> Result<Percent, FormatError> {
    match required(doc, field) {
        Ok(JsonView::Number(number)) => match number.float_bits {
            Some(bits) => Ok(Percent { bits }),
            None => Err(FormatError::Malformed(field)),
        },
        Ok(_) => Err(FormatError::Malformed(field)),
        Err(e) => Err(e),
    }
}

/// The boolean of the member `field`.
pub open spec fn flag_field(doc: JsonView, field: Field) -> Result<bool, FormatError> {
    match required(doc, field) {
        Ok(JsonView::Bool(flag)) => Ok(flag),
        Ok(_) => Err(FormatError::Malformed(field)),
        Err(e) => Err(e),
    }
}

/// The items of the member `field`.
pub open spec fn list_field(doc: JsonView, field: Field) -> Result<Seq<JsonView>, FormatError> {
    match required(doc, field) {
        Ok(JsonView::List(items)) => Ok(items),
        Ok(_) => Err(FormatError::Malformed(field)),
        Err(e) => Err(e),
    }
}

/// The unsigned integer of a member that may be missing or null: then
/// there is none, and no number stands in for it.
pub open spec fn optional_unsigned_field(doc: JsonView, field: Field) -> Result<
    Option<u64>,
    FormatError,
> {
    if !(doc is Object) {
        Err(FormatError::NotAnObject)
    } else {
        match doc.field(field.key()) {
            None => Ok(None),
            Some(JsonView::Null) => Ok(None),
            Some(JsonView::Number(number)) => match number.unsigned {
                Some(n) => Ok(Some(n)),
                None => Err(FormatError::Malformed(field)),
            },
            Some(_) => Err(FormatError::Malformed(field)),
        }
    }
}

/// Looks up a member that must be there.
pub fn get_required<'a>(doc: &'a Json, field: Field) -> (r: Result<&'a Json, FormatError>)
    ensures
        match r {
            Ok(value) => required(doc@, field) == Ok::<JsonView, FormatError>(value@),
            Err(e) => required(doc@, field) == Err::<JsonView, FormatError>(e),
        },
{
    match doc {
        Json::Object(_) => match doc.get(field.name()) {
            Some(value) => Ok(value),
            None => Err(FormatError::Missing(field)),
        },
        _ => Err(FormatError::NotAnObject),
    }
}

/// Reads a member that must be a text.
pub fn get_text<'a>(doc: &'a Json, field: Field) -> (r: Result<&'a String, FormatError>)
    ensures
        match r {
            Ok(text) => text_field(doc@, field) == Ok::<Seq<char>, FormatError>(text@),
            Err(e) => text_field(doc@, field) == Err::<Seq<char>, FormatError>(e),
        },
{
    match get_required(doc, field) {
        Ok(Json::Text(text)) => Ok(text),
        Ok(_) => Err(FormatError::Malformed(field)),
        Err(e) => Err(e),
    }
}

/// Reads a member that must be an unsigned integer.
pub fn get_unsigned(doc: &Json, field: Field) -> (r: Result<u64, FormatError>)
    ensures
        r == unsigned_field(doc@, field),
{
    match get_required(doc, field) {
        Ok(Json::Number(number)) => match number.unsigned {
            Some(n) => Ok(n),
            None => Err(FormatError::Malformed(field)),
        },
        Ok(_) => Err(FormatError::Malformed(field)),
        Err(e) => Err(e),
    }
}

/// Reads a member that must be a number.
pub fn get_percent(doc: &Json, field: Field) -> (r: Result<Percent, FormatError>)
    ensures
        r == percent_field(doc@, field),
{
    match get_required(doc, field) {
        Ok(Json::Number(number)) => match number.float_bits {
            Some(bits) => Ok(Percent { bits }),
            None => Err(FormatError::Malformed(field)),
        },
        Ok(_) => Err(FormatError::Malformed(field)),
        Err(e) => Err(e),
    }
}

/// Reads a member that must be a boolean.
pub fn get_flag(doc: &Json, field: Field) -> (r: Result<bool, FormatError>)
    ensures
        r == flag_field(doc@, field),
{
    match get_required(doc, field) {
        Ok(Json::Bool(flag)) => Ok(*flag),
        Ok(_) => Err(FormatError::Malformed(field)),
        Err(e) => Err(e),
    }
}

/// Reads a member that must be a list.
pub fn get_list<'a>(doc: &'a Json, field: Field) -> (r: Result<&'a Vec<Json>, FormatError>)
    ensures
        match r {
            Ok(items) => list_field(doc@, field) == Ok::<Seq<JsonView>, FormatError>(
                list_view(items@),
            ),
            Err(e) => list_field(doc@, field) == Err::<Seq<JsonView>, FormatError>(e),
        },
{
    match get_required(doc, field) {
        Ok(Json::List(items)) => Ok(items),
        Ok(_) => Err(FormatError::Malformed(field)),
        Err(e) => Err(e),
    }
}

/// Reads an unsigned integer that may be missing or null.
pub fn get_optional_unsigned(doc: &Json, field: Field) -> (r: Result<Option<u64>, FormatError>)
    ensures
        r == optional_unsigned_field(doc@, field),
{
    match doc {
        Json::Object(_) => match doc.get(field.name()) {
            None => Ok(None),
            Some(Json::Null) => Ok(None),
            Some(Json::Number(number)) => match number.unsigned {
                Some(n) => Ok(Some(n)),
                None => Err(FormatError::Malformed(field)),
            },
            Some(_) => Err(FormatError::Malformed(field)),
        },
        _ => Err(FormatError::NotAnObject),
    }
}

/// The values that the items of a list stand for, each read by `one`, or
/// the error of the first item that `one` refuses.
pub open spec fn each<T>(
    items: Seq<JsonView>,
    one: spec_fn(JsonView) -> Result<T, FormatError>,
) -> Result<Seq<T>, FormatError>
    decreases items.len(),
{
    if items.len() == 0 {
        Ok(Seq::empty())
    } else {
        match each(items.drop_last(), one) {
            Err(e) => Err(e),
            Ok(before) => match one(items.last()) {
                Ok(value) => Ok(before.push(value)),
                Err(e) => Err(e),
            },
        }
    }
}

/// Reading one item more: the error so far stays; else the item's value
/// is added, or its error ends the reading.
proof fn lemma_each_step<T>(
    items: Seq<JsonView>,
    one: spec_fn(JsonView) -> Result<T, FormatError>,
    i: int,
)
    requires
        0 <= i < items.len(),
    ensures
        each(items.take(i + 1), one) == match each(items.take(i), one) {
            Err(e) => Err(e),
            Ok(before) => match one(items[i]) {
                Ok(value) => Ok(before.push(value)),
                Err(e) => Err(e),
            },
        },
{
    assert(items.take(i + 1).drop_last() =~= items.take(i));
    assert(items.take(i + 1).last() == items[i]);
}

/// An error among the first `k` items is the error of the whole list.
proof fn lemma_each_error_stays<T>(
    items: Seq<JsonView>,
    one: spec_fn(JsonView) -> Result<T, FormatError>,
    k: int,
)
    requires
        0 <= k <= items.len(),
        each(items.take(k), one) is Err,
    ensures
        each(items, one) == each(items.take(k), one),
    decreases items.len() - k,
{
    if k < items.len() {
        lemma_each_step(items, one, k);
        lemma_each_error_stays(items, one, k + 1);
    } else {
        assert(items.take(k) =~= items);
    }
}

/// The status that the member `status` gives.
pub open spec fn status_field(doc: JsonView) -> Result<FeatureStatus, FormatError> {
    match text_field(doc, Field::Status) {
        Err(e) => Err(e),
        Ok(text) => if text == "active"@ {
            Ok(FeatureStatus::Active)
        } else if text == "inactive"@ {
            Ok(FeatureStatus::Inactive)
        } else {
            Err(FormatError::Malformed(Field::Status))
        },
    }
}

/// The feature that an object stands for.
pub open spec fn feature_of(doc: JsonView) -> Result<FeatureView, FormatError> {
    match text_field(doc, Field::Id) {
        Err(e) => Err(e),
        Ok(id_text) => match pubkey_from_text(id_text) {
            Err(reason) => Err(FormatError::Identifier(reason)),
            Ok(id) => match text_field(doc, Field::Description) {
                Err(e) => Err(e),
                Ok(description) => match status_field(doc) {
                    Err(e) => Err(e),
                    Ok(status) => match optional_unsigned_field(doc, Field::SinceSlot) {
                        Err(e) => Err(e),
                        Ok(since_slot) => Ok(FeatureView { id, description, status, since_slot }),
                    },
                },
            },
        },
    }
}

/// The features that the items of a list stand for.
pub open spec fn features_of(items: Seq<JsonView>) -> Result<Seq<FeatureView>, FormatError> {
    each(items, |doc: JsonView| feature_of(doc))
}

/// The text that an item of the list `field` stands for.
pub open spec fn text_item(item: JsonView, field: Field) -> Result<Seq<char>, FormatError> {
    match item {
        JsonView::Text(text) => Ok(text),
        _ => Err(FormatError::Malformed(field)),
    }
}

/// The texts that the items of the list `softwareVersions` stand for.
pub open spec fn version_texts_of(items: Seq<JsonView>) -> Result<Seq<Seq<char>>, FormatError> {
    each(items, |item: JsonView| text_item(item, Field::SoftwareVersions))
}

/// The feature set that an object stands for.
pub open spec fn feature_set_of(doc: JsonView) -> Result<FeatureSetView, FormatError> {
    match list_field(doc, Field::SoftwareVersions) {
        Err(e) => Err(e),
        Ok(items) => match version_texts_of(items) {
            Err(e) => Err(e),
            Ok(software_versions) => match unsigned_field(doc, Field::FeatureSet) {
                Err(e) => Err(e),
                Ok(feature_set) => match percent_field(doc, Field::StakePercent) {
                    Err(e) => Err(e),
                    Ok(stake_percent) => match percent_field(doc, Field::RpcPercent) {
                        Err(e) => Err(e),
                        Ok(rpc_percent) => Ok(
                            FeatureSetView {
                                software_versions,
                                feature_set,
                                stake_percent,
                                rpc_percent,
                            },
                        ),
                    },
                },
            },
        },
    }
}

/// The feature sets that the items of a list stand for.
pub open spec fn feature_sets_of(items: Seq<JsonView>) -> Result<
    Seq<FeatureSetView>,
    FormatError,
> {
    each(items, |doc: JsonView| feature_set_of(doc))
}

/// The cluster's feature sets that an object stands for.
pub open spec fn cluster_feature_sets_of(doc: JsonView) -> Result<
    ClusterFeatureSetsView,
    FormatError,
> {
    match unsigned_field(doc, Field::ToolFeatureSet) {
        Err(e) => Err(e),
        Ok(tool_feature_set) => match list_field(doc, Field::FeatureSets) {
            Err(e) => Err(e),
            Ok(items) => match feature_sets_of(items) {
                Err(e) => Err(e),
                Ok(feature_sets) => Ok(ClusterFeatureSetsView { tool_feature_set, feature_sets }),
            },
        },
    }
}

/// The software version that an object stands for.
pub open spec fn software_version_of(doc: JsonView) -> Result<SoftwareVersionView, FormatError> {
    match text_field(doc, Field::SoftwareVersion) {
        Err(e) => Err(e),
        Ok(software_version) => match percent_field(doc, Field::StakePercent) {
            Err(e) => Err(e),
            Ok(stake_percent) => match percent_field(doc, Field::RpcPercent) {
                Err(e) => Err(e),
                Ok(rpc_percent) => Ok(
                    SoftwareVersionView { software_version, stake_percent, rpc_percent },
                ),
            },
        },
    }
}

/// The software versions that the items of a list stand for.
pub open spec fn software_versions_of(items: Seq<JsonView>) -> Result<
    Seq<SoftwareVersionView>,
    FormatError,
> {
    each(items, |doc: JsonView| software_version_of(doc))
}

/// The cluster's software versions that an object stands for.
pub open spec fn cluster_software_versions_of(doc: JsonView) -> Result<
    ClusterSoftwareVersionsView,
    FormatError,
> {
    match text_field(doc, Field::ToolSoftwareVersion) {
        Err(e) => Err(e),
        Ok(tool_software_version) => match list_field(doc, Field::SoftwareVersions) {
            Err(e) => Err(e),
            Ok(items) => match software_versions_of(items) {
                Err(e) => Err(e),
                Ok(software_versions) => Ok(
                    ClusterSoftwareVersionsView { tool_software_version, software_versions },
                ),
            },
        },
    }
}

/// The report that a document stands for: its four members, each of the
/// shape that the report asks for. The first member that is missing or
/// malformed, in the order of the report's fields, gives the error.
pub open spec fn report_of(doc: JsonView) -> Result<ReportView, FormatError> {
    match list_field(doc, Field::Features) {
        Err(e) => Err(e),
        Ok(items) => match features_of(items) {
            Err(e) => Err(e),
            Ok(features) => match flag_field(doc, Field::FeatureActivationAllowed) {
                Err(e) => Err(e),
                Ok(feature_activation_allowed) => match required(doc, Field::ClusterFeatureSets) {
                    Err(e) => Err(e),
                    Ok(sets) => match cluster_feature_sets_of(sets) {
                        Err(e) => Err(e),
                        Ok(cluster_feature_sets) => match required(
                            doc,
                            Field::ClusterSoftwareVersions,
                        ) {
                            Err(e) => Err(e),
                            Ok(versions) => match cluster_software_versions_of(versions) {
                                Err(e) => Err(e),
                                Ok(cluster_software_versions) => Ok(
                                    ReportView {
                                        features,
                                        feature_activation_allowed,
                                        cluster_feature_sets,
                                        cluster_software_versions,
                                    },
                                ),
                            },
                        },
                    },
                },
            },
        },
    }
}

/// The report that a text stands for, or why it stands for none.
pub open spec fn report_of_text(text: Seq<char>) -> Result<ReportView, FormatError> {
    match crate::json::json_document(text) {
        None => Err(FormatError::Syntax),
        Some(doc) => report_of(doc),
    }
}

/// Reads the status of a feature.
pub fn get_status(doc: &Json) -> (r: Result<FeatureStatus, FormatError>)
    ensures
        r == status_field(doc@),
{
    match get_text(doc, Field::Status) {
        Err(e) => Err(e),
        Ok(text) => {
            if *text == String::from_str("active") {
                Ok(FeatureStatus::Active)
            } else if *text == String::from_str("inactive") {
                Ok(FeatureStatus::Inactive)
            } else {
                Err(FormatError::Malformed(Field::Status))
            }
        },
    }
}

impl Feature {
    /// Reads a feature from an object of the document.
    pub fn from_json(doc: &Json) -> (r: Result<Feature, FormatError>)
        ensures
            match r {
                Ok(feature) => feature_of(doc@) == Ok::<FeatureView, FormatError>(feature@),
                Err(e) => feature_of(doc@) == Err::<FeatureView, FormatError>(e),
            },
    {
        let id_text = match get_text(doc, Field::Id) {
            Ok(text) => text,
            Err(e) => { return Err(e); },
        };
        let id = match FeatureId::parse(id_text.as_str()) {
            Ok(id) => id,
            Err(reason) => { return Err(FormatError::Identifier(reason)); },
        };
        let description = match get_text(doc, Field::Description) {
            Ok(text) => text.clone(),
            Err(e) => { return Err(e); },
        };
        let status = match get_status(doc) {
            Ok(status) => status,
            Err(e) => { return Err(e); },
        };
        let since_slot = match get_optional_unsigned(doc, Field::SinceSlot) {
            Ok(slot) => slot,
            Err(e) => { return Err(e); },
        };
        Ok(Feature { id, description, status, since_slot })
    }
}

/// Reads the features of a list.
pub fn features_from_json(items: &Vec<Json>) -> (r: Result<Vec<Feature>, FormatError>)
    ensures
        match r {
            Ok(features) => features_of(list_view(items@)) == Ok::<Seq<FeatureView>, FormatError>(
                feature_views(features@),
            ),
            Err(e) => features_of(list_view(items@)) == Err::<Seq<FeatureView>, FormatError>(e),
        },
{
    let ghost docs = list_view(items@);
    let ghost one = |doc: JsonView| feature_of(doc);
    let n = items.len();
    let mut found: Vec<Feature> = Vec::new();
    let mut i: usize = 0;
    proof {
        lemma_list_view(items@);
        assert(docs.take(0).len() == 0);
        assert(feature_views(found@) =~= Seq::empty());
    }
    while i < n
        invariant
            i <= n,
            n == items@.len(),
            docs == list_view(items@),
            docs.len() == n,
            one == (|doc: JsonView| feature_of(doc)),
            forall|j: int| 0 <= j < n ==> #[trigger] docs[j] == items@[j]@,
            each(docs.take(i as int), one) == Ok::<Seq<FeatureView>, FormatError>(
                feature_views(found@),
            ),
        decreases n - i,
    {
        proof {
            lemma_each_step(docs, one, i as int);
        }
        match Feature::from_json(&items[i]) {
            Ok(feature) => {
                let ghost before = found@;
                found.push(feature);
                assert(feature_views(found@) =~= feature_views(before).push(feature@));
            },
            Err(e) => {
                proof {
                    lemma_each_error_stays(docs, one, i + 1);
                }
                return Err(e);
            },
        }
        i += 1;
    }
    assert(docs.take(n as int) =~= docs);
    Ok(found)
}

/// Reads an item of the list `field` that must be a text.
pub fn text_from_json(item: &Json, field: Field) -> (r: Result<String, FormatError>)
    ensures
        match r {
            Ok(text) => text_item(item@, field) == Ok::<Seq<char>, FormatError>(text@),
            Err(e) => text_item(item@, field) == Err::<Seq<char>, FormatError>(e),
        },
{
    match item {
        Json::Text(text) => Ok(text.clone()),
        _ => Err(FormatError::Malformed(field)),
    }
}

/// Reads the texts of the list `softwareVersions`.
pub fn version_texts_from_json(items: &Vec<Json>) -> (r: Result<Vec<String>, FormatError>)
    ensures
        match r {
            Ok(found) => version_texts_of(list_view(items@)) == Ok::<Seq<Seq<char>>, FormatError>(
                text_views(found@),
            ),
            Err(e) => version_texts_of(list_view(items@)) == Err::<Seq<Seq<char>>, FormatError>(e),
        },
{
    let ghost docs = list_view(items@);
    let ghost one = |item: JsonView| text_item(item, Field::SoftwareVersions);
    let n = items.len();
    let mut found: Vec<String> = Vec::new();
    let mut i: usize = 0;
    proof {
        lemma_list_view(items@);
        assert(docs.take(0).len() == 0);
        assert(text_views(found@) =~= Seq::empty());
    }
    while i < n
        invariant
            i <= n,
            n == items@.len(),
            docs == list_view(items@),
            docs.len() == n,
            one == (|item: JsonView| text_item(item, Field::SoftwareVersions)),
            forall|j: int| 0 <= j < n ==> #[trigger] docs[j] == items@[j]@,
            each(docs.take(i as int), one) == Ok::<Seq<Seq<char>>, FormatError>(
                text_views(found@),
            ),
        decreases n - i,
    {
        proof {
            lemma_each_step(docs, one, i as int);
        }
        match text_from_json(&items[i], Field::SoftwareVersions) {
            Ok(value) => {
                let ghost before = found@;
                found.push(value);
                assert(text_views(found@) =~= text_views(before).push(value@));
            },
            Err(e) => {
                proof {
                    lemma_each_error_stays(docs, one, i + 1);
                }
                return Err(e);
            },
        }
        i += 1;
    }
    assert(docs.take(n as int) =~= docs);
    Ok(found)
}

impl FeatureSet {
    /// Reads a feature set from an object of the document.
    pub fn from_json(doc: &Json) -> (r: Result<FeatureSet, FormatError>)
        ensures
            match r {
                Ok(set) => feature_set_of(doc@) == Ok::<FeatureSetView, FormatError>(set@),
                Err(e) => feature_set_of(doc@) == Err::<FeatureSetView, FormatError>(e),
            },
    {
        let software_versions = match get_list(doc, Field::SoftwareVersions) {
            Ok(items) => match version_texts_from_json(items) {
                Ok(texts) => texts,
                Err(e) => { return Err(e); },
            },
            Err(e) => { return Err(e); },
        };
        let feature_set = match get_unsigned(doc, Field::FeatureSet) {
            Ok(n) => n,
            Err(e) => { return Err(e); },
        };
        let stake_percent = match get_percent(doc, Field::StakePercent) {
            Ok(p) => p,
            Err(e) => { return Err(e); },
        };
        let rpc_percent = match get_percent(doc, Field::RpcPercent) {
            Ok(p) => p,
            Err(e) => { return Err(e); },
        };
        Ok(FeatureSet { software_versions, feature_set, stake_percent, rpc_percent })
    }
}

/// Reads the feature sets of a list.
pub fn feature_sets_from_json(items: &Vec<Json>) -> (r: Result<Vec<FeatureSet>, FormatError>)
    ensures
        match r {
            Ok(found) => feature_sets_of(list_view(items@)) == Ok::<Seq<FeatureSetView>, FormatError>(
                feature_set_views(found@),
            ),
            Err(e) => feature_sets_of(list_view(items@)) == Err::<Seq<FeatureSetView>, FormatError>(e),
        },
{
    let ghost docs = list_view(items@);
    let ghost one = |doc: JsonView| feature_set_of(doc);
    let n = items.len();
    let mut found: Vec<FeatureSet> = Vec::new();
    let mut i: usize = 0;
    proof {
        lemma_list_view(items@);
        assert(docs.take(0).len() == 0);
        assert(feature_set_views(found@) =~= Seq::empty());
    }
    while i < n
        invariant
            i <= n,
            n == items@.len(),
            docs == list_view(items@),
            docs.len() == n,
            one == (|doc: JsonView| feature_set_of(doc)),
            forall|j: int| 0 <= j < n ==> #[trigger] docs[j] == items@[j]@,
            each(docs.take(i as int), one) == Ok::<Seq<FeatureSetView>, FormatError>(
                feature_set_views(found@),
            ),
        decreases n - i,
    {
        proof {
            lemma_each_step(docs, one, i as int);
        }
        match FeatureSet::from_json(&items[i]) {
            Ok(value) => {
                let ghost before = found@;
                found.push(value);
                assert(feature_set_views(found@) =~= feature_set_views(before).push(value@));
            },
            Err(e) => {
                proof {
                    lemma_each_error_stays(docs, one, i + 1);
                }
                return Err(e);
            },
        }
        i += 1;
    }
    assert(docs.take(n as int) =~= docs);
    Ok(found)
}

impl ClusterFeatureSets {
    /// Reads the cluster's feature sets from an object of the document.
    pub fn from_json(doc: &Json) -> (r: Result<ClusterFeatureSets, FormatError>)
        ensures
            match r {
                Ok(sets) => cluster_feature_sets_of(doc@) == Ok::<
                    ClusterFeatureSetsView,
                    FormatError,
                >(sets@),
                Err(e) => cluster_feature_sets_of(doc@) == Err::<
                    ClusterFeatureSetsView,
                    FormatError,
                >(e),
            },
    {
        let tool_feature_set = match get_unsigned(doc, Field::ToolFeatureSet) {
            Ok(n) => n,
            Err(e) => { return Err(e); },
        };
        let feature_sets = match get_list(doc, Field::FeatureSets) {
            Ok(items) => match feature_sets_from_json(items) {
                Ok(sets) => sets,
                Err(e) => { return Err(e); },
            },
            Err(e) => { return Err(e); },
        };
        Ok(ClusterFeatureSets { tool_feature_set, feature_sets })
    }
}

impl SoftwareVersion {
    /// Reads a software version from an object of the document.
    pub fn from_json(doc: &Json) -> (r: Result<SoftwareVersion, FormatError>)
        ensures
            match r {
                Ok(version) => software_version_of(doc@) == Ok::<
                    SoftwareVersionView,
                    FormatError,
                >(version@),
                Err(e) => software_version_of(doc@) == Err::<SoftwareVersionView, FormatError>(e),
            },
    {
        let software_version = match get_text(doc, Field::SoftwareVersion) {
            Ok(text) => text.clone(),
            Err(e) => { return Err(e); },
        };
        let stake_percent = match get_percent(doc, Field::StakePercent) {
            Ok(p) => p,
            Err(e) => { return Err(e); },
        };
        let rpc_percent = match get_percent(doc, Field::RpcPercent) {
            Ok(p) => p,
            Err(e) => { return Err(e); },
        };
        Ok(SoftwareVersion { software_version, stake_percent, rpc_percent })
    }
}

/// Reads the software versions of a list.
pub fn software_versions_from_json(items: &Vec<Json>) -> (r: Result<Vec<SoftwareVersion>, FormatError>)
    ensures
        match r {
            Ok(found) => software_versions_of(list_view(items@)) == Ok::<Seq<SoftwareVersionView>, FormatError>(
                software_version_views(found@),
            ),
            Err(e) => software_versions_of(list_view(items@)) == Err::<Seq<SoftwareVersionView>, FormatError>(e),
        },
{
    let ghost docs = list_view(items@);
    let ghost one = |doc: JsonView| software_version_of(doc);
    let n = items.len();
    let mut found: Vec<SoftwareVersion> = Vec::new();
    let mut i: usize = 0;
    proof {
        lemma_list_view(items@);
        assert(docs.take(0).len() == 0);
        assert(software_version_views(found@) =~= Seq::empty());
    }
    while i < n
        invariant
            i <= n,
            n == items@.len(),
            docs == list_view(items@),
            docs.len() == n,
            one == (|doc: JsonView| software_version_of(doc)),
            forall|j: int| 0 <= j < n ==> #[trigger] docs[j] == items@[j]@,
            each(docs.take(i as int), one) == Ok::<Seq<SoftwareVersionView>, FormatError>(
                software_version_views(found@),
            ),
        decreases n - i,
    {
        proof {
            lemma_each_step(docs, one, i as int);
        }
        match SoftwareVersion::from_json(&items[i]) {
            Ok(value) => {
                let ghost before = found@;
                found.push(value);
                assert(software_version_views(found@) =~= software_version_views(before).push(value@));
            },
            Err(e) => {
                proof {
                    lemma_each_error_stays(docs, one, i + 1);
                }
                return Err(e);
            },
        }
        i += 1;
    }
    assert(docs.take(n as int) =~= docs);
    Ok(found)
}

impl ClusterSoftwareVersions {
    /// Reads the cluster's software versions from an object of the
    /// document.
    pub fn from_json(doc: &Json) -> (r: Result<ClusterSoftwareVersions, FormatError>)
        ensures
            match r {
                Ok(versions) => cluster_software_versions_of(doc@) == Ok::<
                    ClusterSoftwareVersionsView,
                    FormatError,
                >(versions@),
                Err(e) => cluster_software_versions_of(doc@) == Err::<
                    ClusterSoftwareVersionsView,
                    FormatError,
                >(e),
            },
    {
        let tool_software_version = match get_text(doc, Field::ToolSoftwareVersion) {
            Ok(text) => text.clone(),
            Err(e) => { return Err(e); },
        };
        let software_versions = match get_list(doc, Field::SoftwareVersions) {
            Ok(items) => match software_versions_from_json(items) {
                Ok(versions) => versions,
                Err(e) => { return Err(e); },
            },
            Err(e) => { return Err(e); },
        };
        Ok(ClusterSoftwareVersions { tool_software_version, software_versions })
    }
}

impl FeatureStatusReport {
    /// Reads a report from a document.
    pub fn from_json(doc: &Json) -> (r: Result<FeatureStatusReport, FormatError>)
        ensures
            match r {
                Ok(report) => report_of(doc@) == Ok::<ReportView, FormatError>(report@),
                Err(e) => report_of(doc@) == Err::<ReportView, FormatError>(e),
            },
    {
        let features = match get_list(doc, Field::Features) {
            Ok(items) => match features_from_json(items) {
                Ok(features) => features,
                Err(e) => { return Err(e); },
            },
            Err(e) => { return Err(e); },
        };
        let feature_activation_allowed = match get_flag(doc, Field::FeatureActivationAllowed) {
            Ok(flag) => flag,
            Err(e) => { return Err(e); },
        };
        let cluster_feature_sets = match get_required(doc, Field::ClusterFeatureSets) {
            Ok(sets) => match ClusterFeatureSets::from_json(sets) {
                Ok(sets) => sets,
                Err(e) => { return Err(e); },
            },
            Err(e) => { return Err(e); },
        };
        let cluster_software_versions = match get_required(doc, Field::ClusterSoftwareVersions) {
            Ok(versions) => match ClusterSoftwareVersions::from_json(versions) {
                Ok(versions) => versions,
                Err(e) => { return Err(e); },
            },
            Err(e) => { return Err(e); },
        };
        Ok(
            FeatureStatusReport {
                features,
                feature_activation_allowed,
                cluster_feature_sets,
                cluster_software_versions,
            },
        )
    }

    /// Reads a report from the text of a status document.
    pub fn from_json_str(text: &str) -> (r: Result<FeatureStatusReport, FormatError>)
        ensures
            match r {
                Ok(report) => report_of_text(text@) == Ok::<ReportView, FormatError>(report@),
                Err(e) => report_of_text(text@) == Err::<ReportView, FormatError>(e),
            },
    {
        match Json::parse(text) {
            None => Err(FormatError::Syntax),
            Some(doc) => Self::from_json(&doc),
        }
    }
}

} // verus!
