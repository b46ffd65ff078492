use feature_status::document::{Field, FormatError};
use feature_status::identifier::{FeatureId, IdError};
use feature_status::json::{Json, JsonNumber};
use feature_status::status_report::{FeatureStatus, FeatureStatusReport};

const VOTE: &str = "Vote111111111111111111111111111111111111111";
const STAKE: &str = "Stake11111111111111111111111111111111111111";

const FULL: &str = r#"{
  "features": [
    { "id": "Vote111111111111111111111111111111111111111", "description": "first",
      "status": "active", "sinceSlot": 12345 },
    { "id": "Stake11111111111111111111111111111111111111", "description": "second",
      "status": "inactive", "sinceSlot": null },
    { "id": "11111111111111111111111111111111", "description": "third",
      "status": "inactive" }
  ],
  "featureActivationAllowed": true,
  "ignored": { "anything": [1, 2, 3] },
  "clusterFeatureSets": {
    "toolFeatureSet": 3073396398,
    "featureSets": [
      { "softwareVersions": ["2.0.1", "2.0.2"], "featureSet": 607245837,
        "stakePercent": 99.5, "rpcPercent": 100 }
    ]
  },
  "clusterSoftwareVersions": {
    "toolSoftwareVersion": "2.0.3",
    "softwareVersions": [
      { "softwareVersion": "2.0.1", "stakePercent": 0.25, "rpcPercent": 0.0 }
    ]
  }
}"#;

fn without(member: &str) -> String {
    let doc = Json::parse(FULL).unwrap();
    let members = match doc {
        Json::Object(members) => members,
        _ => panic!("the document is an object"),
    };
    let mut out = String::from("{");
    let mut first = true;
    for (key, _) in members.iter() {
        if key == member {
            continue;
        }
        if !first {
            out.push(',');
        }
        first = false;
        let value = match key.as_str() {
            "features" => "[]".to_string(),
            "featureActivationAllowed" => "false".to_string(),
            "clusterFeatureSets" => "{\"toolFeatureSet\":1,\"featureSets\":[]}".to_string(),
            "clusterSoftwareVersions" => {
                "{\"toolSoftwareVersion\":\"x\",\"softwareVersions\":[]}".to_string()
            }
            _ => "null".to_string(),
        };
        out.push_str(&format!("\"{}\":{}", key, value));
    }
    out.push('}');
    out
}

#[test]
fn full_document_is_read() {
    let report = FeatureStatusReport::from_json_str(FULL).unwrap();
    assert_eq!(report.features.len(), 3);
    assert_eq!(report.features[0].id.bytes, FeatureId::parse(VOTE).unwrap().bytes);
    assert_eq!(report.features[0].description, "first");
    assert_eq!(report.features[0].status, FeatureStatus::Active);
    assert_eq!(report.features[0].since_slot, Some(12345));
    assert_eq!(report.features[1].status, FeatureStatus::Inactive);
    assert_eq!(report.features[1].since_slot, None);
    assert_eq!(report.features[2].since_slot, None);
    assert_eq!(report.features[2].id.bytes, [0u8; 32]);
    assert!(report.feature_activation_allowed);
    assert_eq!(report.cluster_feature_sets.tool_feature_set, 3073396398);
    assert_eq!(report.cluster_feature_sets.feature_sets.len(), 1);
    let set = &report.cluster_feature_sets.feature_sets[0];
    assert_eq!(set.software_versions, vec!["2.0.1".to_string(), "2.0.2".to_string()]);
    assert_eq!(set.feature_set, 607245837);
    assert_eq!(set.stake_percent.bits, 99.5f64.to_bits());
    assert_eq!(set.rpc_percent.bits, 100f64.to_bits());
    assert_eq!(report.cluster_software_versions.tool_software_version, "2.0.3");
    let version = &report.cluster_software_versions.software_versions[0];
    assert_eq!(version.software_version, "2.0.1");
    assert_eq!(version.stake_percent.bits, 0.25f64.to_bits());
    assert_eq!(version.rpc_percent.bits, 0.0f64.to_bits());
}

#[test]
fn document_without_feature_activation_allowed_is_refused() {
    let text = without("featureActivationAllowed");
    assert!(!text.contains("featureActivationAllowed"));
    assert_eq!(
        FeatureStatusReport::from_json_str(&text).unwrap_err(),
        FormatError::Missing(Field::FeatureActivationAllowed)
    );
}

#[test]
fn each_top_level_member_is_required() {
    assert_eq!(
        FeatureStatusReport::from_json_str(&without("features")).unwrap_err(),
        FormatError::Missing(Field::Features)
    );
    assert_eq!(
        FeatureStatusReport::from_json_str(&without("clusterFeatureSets")).unwrap_err(),
        FormatError::Missing(Field::ClusterFeatureSets)
    );
    assert_eq!(
        FeatureStatusReport::from_json_str(&without("clusterSoftwareVersions")).unwrap_err(),
        FormatError::Missing(Field::ClusterSoftwareVersions)
    );
    assert!(FeatureStatusReport::from_json_str(&without("ignored")).is_ok());
    assert_eq!(
        FeatureStatusReport::from_json_str("{}").unwrap_err(),
        FormatError::Missing(Field::Features)
    );
}

#[test]
fn text_that_is_not_json_is_refused() {
    assert_eq!(FeatureStatusReport::from_json_str("").unwrap_err(), FormatError::Syntax);
    assert_eq!(
        FeatureStatusReport::from_json_str("{\"features\": [").unwrap_err(),
        FormatError::Syntax
    );
    assert!(Json::parse("not json").is_none());
}

#[test]
fn document_that_is_no_object_is_refused() {
    assert_eq!(FeatureStatusReport::from_json_str("[]").unwrap_err(), FormatError::NotAnObject);
    assert_eq!(FeatureStatusReport::from_json_str("null").unwrap_err(), FormatError::NotAnObject);
    assert_eq!(
        FeatureStatusReport::from_json_str("{\"features\": [7]}").unwrap_err(),
        FormatError::NotAnObject
    );
}

fn with_feature(feature: &str) -> Result<FeatureStatusReport, FormatError> {
    let text = format!(
        "{{\"features\":[{}],\"featureActivationAllowed\":false,\"clusterFeatureSets\":{{\"toolFeatureSet\":1,\"featureSets\":[]}},\"clusterSoftwareVersions\":{{\"toolSoftwareVersion\":\"x\",\"softwareVersions\":[]}}}}",
        feature
    );
    FeatureStatusReport::from_json_str(&text)
}

#[test]
fn feature_members_are_checked() {
    let good = format!("{{\"id\":\"{}\",\"description\":\"d\",\"status\":\"active\"}}", STAKE);
    let report = with_feature(&good).unwrap();
    assert_eq!(report.features[0].since_slot, None);
    assert!(report.is_active(&FeatureId::parse(STAKE).unwrap()));

    let no_id = "{\"description\":\"d\",\"status\":\"active\"}";
    assert_eq!(with_feature(no_id).unwrap_err(), FormatError::Missing(Field::Id));
    let numeric_id = "{\"id\":5,\"description\":\"d\",\"status\":\"active\"}";
    assert_eq!(with_feature(numeric_id).unwrap_err(), FormatError::Malformed(Field::Id));
    let short_id = "{\"id\":\"abc\",\"description\":\"d\",\"status\":\"active\"}";
    assert_eq!(
        with_feature(short_id).unwrap_err(),
        FormatError::Identifier(IdError::WrongSize)
    );
    let bad_id = "{\"id\":\"0OIl\",\"description\":\"d\",\"status\":\"active\"}";
    assert_eq!(with_feature(bad_id).unwrap_err(), FormatError::Identifier(IdError::Invalid));
    let no_description = format!("{{\"id\":\"{}\",\"status\":\"active\"}}", STAKE);
    assert_eq!(
        with_feature(&no_description).unwrap_err(),
        FormatError::Missing(Field::Description)
    );
    let odd_status = format!("{{\"id\":\"{}\",\"description\":\"d\",\"status\":\"Active\"}}", STAKE);
    assert_eq!(with_feature(&odd_status).unwrap_err(), FormatError::Malformed(Field::Status));
    let no_status = format!("{{\"id\":\"{}\",\"description\":\"d\"}}", STAKE);
    assert_eq!(with_feature(&no_status).unwrap_err(), FormatError::Missing(Field::Status));
}

#[test]
fn since_slot_is_a_number_or_absent() {
    let slot = |value: &str| {
        with_feature(&format!(
            "{{\"id\":\"{}\",\"description\":\"d\",\"status\":\"inactive\",\"sinceSlot\":{}}}",
            STAKE, value
        ))
    };
    assert_eq!(slot("0").unwrap().features[0].since_slot, Some(0));
    assert_eq!(slot("18446744073709551615").unwrap().features[0].since_slot, Some(u64::MAX));
    assert_eq!(slot("null").unwrap().features[0].since_slot, None);
    assert_eq!(slot("-1").unwrap_err(), FormatError::Malformed(Field::SinceSlot));
    assert_eq!(slot("1.5").unwrap_err(), FormatError::Malformed(Field::SinceSlot));
    assert_eq!(slot("\"7\"").unwrap_err(), FormatError::Malformed(Field::SinceSlot));
}

#[test]
fn first_member_of_a_key_is_the_one_found() {
    let doc = Json::Object(vec![
        ("k".to_string(), Json::Bool(true)),
        ("k".to_string(), Json::Null),
        ("other".to_string(), Json::Text("x".to_string())),
    ]);
    assert!(matches!(doc.get("k"), Some(Json::Bool(true))));
    assert!(matches!(doc.get("other"), Some(Json::Text(_))));
    assert!(doc.get("absent").is_none());
    assert!(Json::Null.get("k").is_none());
    assert!(Json::List(vec![]).get("k").is_none());
}

#[test]
fn parsed_numbers_keep_both_readings() {
    let doc = Json::parse("[7, -7, 7.5, 18446744073709551615]").unwrap();
    let items = match doc {
        Json::List(items) => items,
        _ => panic!("a list"),
    };
    let number = |j: &Json| match j {
        Json::Number(n) => *n,
        _ => panic!("a number"),
    };
    assert_eq!(
        number(&items[0]),
        JsonNumber { unsigned: Some(7), float_bits: Some(7f64.to_bits()) }
    );
    assert_eq!(
        number(&items[1]),
        JsonNumber { unsigned: None, float_bits: Some((-7f64).to_bits()) }
    );
    assert_eq!(
        number(&items[2]),
        JsonNumber { unsigned: None, float_bits: Some(7.5f64.to_bits()) }
    );
    assert_eq!(number(&items[3]).unsigned, Some(u64::MAX));
}

#[test]
fn parsed_documents_keep_their_shape() {
    let doc = Json::parse("{\"b\": [null, true, \"t\"], \"a\": {\"x\": false}}").unwrap();
    match doc.get("b") {
        Some(Json::List(items)) => {
            assert_eq!(items.len(), 3);
            assert!(matches!(items[0], Json::Null));
            assert!(matches!(items[1], Json::Bool(true)));
            assert!(matches!(&items[2], Json::Text(t) if t == "t"));
        }
        _ => panic!("a list"),
    }
    assert!(matches!(doc.get("a").unwrap().get("x"), Some(Json::Bool(false))));
}

#[test]
fn field_names_are_camel_case() {
    assert_eq!(Field::FeatureActivationAllowed.name(), "featureActivationAllowed");
    assert_eq!(Field::SinceSlot.name(), "sinceSlot");
    assert_eq!(Field::ClusterFeatureSets.name(), "clusterFeatureSets");
    assert_eq!(Field::ClusterSoftwareVersions.name(), "clusterSoftwareVersions");
    assert_eq!(Field::ToolFeatureSet.name(), "toolFeatureSet");
    assert_eq!(Field::ToolSoftwareVersion.name(), "toolSoftwareVersion");
    assert_eq!(Field::SoftwareVersions.name(), "softwareVersions");
    assert_eq!(Field::SoftwareVersion.name(), "softwareVersion");
    assert_eq!(Field::FeatureSets.name(), "featureSets");
    assert_eq!(Field::FeatureSet.name(), "featureSet");
    assert_eq!(Field::StakePercent.name(), "stakePercent");
    assert_eq!(Field::RpcPercent.name(), "rpcPercent");
    assert_eq!(Field::Features.name(), "features");
    assert_eq!(Field::Id.name(), "id");
    assert_eq!(Field::Description.name(), "description");
    assert_eq!(Field::Status.name(), "status");
}

fn with_clusters(sets: &str, versions: &str) -> Result<FeatureStatusReport, FormatError> {
    let text = format!(
        "{{\"features\":[],\"featureActivationAllowed\":true,\"clusterFeatureSets\":{},\"clusterSoftwareVersions\":{}}}",
        sets, versions
    );
    FeatureStatusReport::from_json_str(&text)
}

#[test]
fn cluster_members_are_checked() {
    let sets = "{\"toolFeatureSet\":1,\"featureSets\":[]}";
    let versions = "{\"toolSoftwareVersion\":\"x\",\"softwareVersions\":[]}";
    assert!(with_clusters(sets, versions).is_ok());
    assert_eq!(
        with_clusters("{\"featureSets\":[]}", versions).unwrap_err(),
        FormatError::Missing(Field::ToolFeatureSet)
    );
    assert_eq!(
        with_clusters("{\"toolFeatureSet\":1.5,\"featureSets\":[]}", versions).unwrap_err(),
        FormatError::Malformed(Field::ToolFeatureSet)
    );
    assert_eq!(
        with_clusters("{\"toolFeatureSet\":1,\"featureSets\":{}}", versions).unwrap_err(),
        FormatError::Malformed(Field::FeatureSets)
    );
    assert_eq!(
        with_clusters("7", versions).unwrap_err(),
        FormatError::NotAnObject
    );
    assert_eq!(
        with_clusters(sets, "{\"softwareVersions\":[]}").unwrap_err(),
        FormatError::Missing(Field::ToolSoftwareVersion)
    );
    assert_eq!(
        with_clusters(sets, "{\"toolSoftwareVersion\":\"x\"}").unwrap_err(),
        FormatError::Missing(Field::SoftwareVersions)
    );
    assert_eq!(
        with_clusters(sets, "{\"toolSoftwareVersion\":2,\"softwareVersions\":[]}").unwrap_err(),
        FormatError::Malformed(Field::ToolSoftwareVersion)
    );
}

#[test]
fn feature_set_members_are_checked() {
    let versions = "{\"toolSoftwareVersion\":\"x\",\"softwareVersions\":[]}";
    let set = |entry: &str| {
        with_clusters(&format!("{{\"toolFeatureSet\":1,\"featureSets\":[{}]}}", entry), versions)
    };
    let good = "{\"softwareVersions\":[\"a\"],\"featureSet\":2,\"stakePercent\":1,\"rpcPercent\":2.5}";
    let report = set(good).unwrap();
    let read = &report.cluster_feature_sets.feature_sets[0];
    assert_eq!(read.feature_set, 2);
    assert_eq!(read.stake_percent.bits, 1f64.to_bits());
    assert_eq!(read.rpc_percent.bits, 2.5f64.to_bits());
    assert_eq!(
        set("{\"softwareVersions\":[\"a\",3],\"featureSet\":2,\"stakePercent\":1,\"rpcPercent\":2}")
            .unwrap_err(),
        FormatError::Malformed(Field::SoftwareVersions)
    );
    assert_eq!(
        set("{\"featureSet\":2,\"stakePercent\":1,\"rpcPercent\":2}").unwrap_err(),
        FormatError::Missing(Field::SoftwareVersions)
    );
    assert_eq!(
        set("{\"softwareVersions\":[],\"stakePercent\":1,\"rpcPercent\":2}").unwrap_err(),
        FormatError::Missing(Field::FeatureSet)
    );
    assert_eq!(
        set("{\"softwareVersions\":[],\"featureSet\":2,\"stakePercent\":\"1\",\"rpcPercent\":2}")
            .unwrap_err(),
        FormatError::Malformed(Field::StakePercent)
    );
    assert_eq!(
        set("{\"softwareVersions\":[],\"featureSet\":2,\"stakePercent\":1}").unwrap_err(),
        FormatError::Missing(Field::RpcPercent)
    );
    assert_eq!(set("[]").unwrap_err(), FormatError::NotAnObject);
}

#[test]
fn software_version_members_are_checked() {
    let sets = "{\"toolFeatureSet\":1,\"featureSets\":[]}";
    let version = |entry: &str| {
        with_clusters(
            sets,
            &format!("{{\"toolSoftwareVersion\":\"x\",\"softwareVersions\":[{}]}}", entry),
        )
    };
    let good = "{\"softwareVersion\":\"1.0\",\"stakePercent\":50.5,\"rpcPercent\":0}";
    let report = version(good).unwrap();
    let read = &report.cluster_software_versions.software_versions[0];
    assert_eq!(read.software_version, "1.0");
    assert_eq!(read.stake_percent.bits, 50.5f64.to_bits());
    assert_eq!(read.rpc_percent.bits, 0f64.to_bits());
    assert_eq!(
        version("{\"stakePercent\":50.5,\"rpcPercent\":0}").unwrap_err(),
        FormatError::Missing(Field::SoftwareVersion)
    );
    assert_eq!(
        version("{\"softwareVersion\":\"1.0\",\"stakePercent\":null,\"rpcPercent\":0}")
            .unwrap_err(),
        FormatError::Malformed(Field::StakePercent)
    );
    assert_eq!(
        version("{\"softwareVersion\":\"1.0\",\"stakePercent\":1,\"rpcPercent\":true}")
            .unwrap_err(),
        FormatError::Malformed(Field::RpcPercent)
    );
}

#[test]
fn first_fault_in_the_order_of_the_fields_is_reported() {
    assert_eq!(
        FeatureStatusReport::from_json_str("{\"features\": 1, \"featureActivationAllowed\": 1}")
            .unwrap_err(),
        FormatError::Malformed(Field::Features)
    );
    assert_eq!(
        FeatureStatusReport::from_json_str("{\"features\": [], \"featureActivationAllowed\": 1}")
            .unwrap_err(),
        FormatError::Malformed(Field::FeatureActivationAllowed)
    );
}
