use feature_status::document::{Field, FormatError};
use feature_status::identifier::FeatureId;
use feature_status::json::{Json, JsonNumber};
use feature_status::serialize::{percent_to_json, unsigned_to_json};
use feature_status::status_report::{
    ClusterFeatureSets, ClusterSoftwareVersions, Feature, FeatureSet, FeatureStatus,
    FeatureStatusReport, Percent, SoftwareVersion,
};

const VOTE: &str = "Vote111111111111111111111111111111111111111";
const STAKE: &str = "Stake11111111111111111111111111111111111111";
const SYSTEM: &str = "11111111111111111111111111111111";

fn sample() -> FeatureStatusReport {
    FeatureStatusReport {
        features: vec![
            Feature {
                id: FeatureId::parse(VOTE).unwrap(),
                description: "vote \"quoted\"".to_string(),
                status: FeatureStatus::Active,
                since_slot: Some(42),
            },
            Feature {
                id: FeatureId::parse(STAKE).unwrap(),
                description: String::new(),
                status: FeatureStatus::Inactive,
                since_slot: None,
            },
            Feature {
                id: FeatureId { bytes: [255u8; 32] },
                description: "all ones".to_string(),
                status: FeatureStatus::Active,
                since_slot: Some(u64::MAX),
            },
        ],
        feature_activation_allowed: false,
        cluster_feature_sets: ClusterFeatureSets {
            tool_feature_set: 7,
            feature_sets: vec![FeatureSet {
                software_versions: vec!["1.0".to_string(), "1.1".to_string()],
                feature_set: 9,
                stake_percent: Percent { bits: 12.5f64.to_bits() },
                rpc_percent: Percent { bits: 0f64.to_bits() },
            }],
        },
        cluster_software_versions: ClusterSoftwareVersions {
            tool_software_version: "1.1".to_string(),
            software_versions: vec![SoftwareVersion {
                software_version: "1.0".to_string(),
                stake_percent: Percent { bits: 87.5f64.to_bits() },
                rpc_percent: Percent { bits: 100f64.to_bits() },
            }],
        },
    }
}

#[test]
fn identifier_text_is_read_back() {
    for text in [VOTE, STAKE, SYSTEM] {
        let id = FeatureId::parse(text).unwrap();
        assert_eq!(id.text(), text);
    }
    let id = FeatureId { bytes: [255u8; 32] };
    assert_eq!(id.text(), "JEKNVnkbo3jma5nREBBJCDoXFVeKkD56V3xKrvRmWxFG");
    assert_eq!(FeatureId::parse(&id.text()).unwrap().bytes, id.bytes);
}

#[test]
fn numbers_are_written_by_one_reading() {
    assert!(matches!(
        unsigned_to_json(5),
        Json::Number(JsonNumber { unsigned: Some(5), float_bits: None })
    ));
    let half = Percent { bits: 0.5f64.to_bits() };
    match percent_to_json(half) {
        Json::Number(n) => {
            assert_eq!(n, JsonNumber { unsigned: None, float_bits: Some(0.5f64.to_bits()) })
        }
        _ => panic!("a number"),
    }
}

#[test]
fn written_feature_has_its_four_members() {
    let report = sample();
    let doc = report.features[0].to_json();
    assert!(matches!(doc.get("id"), Some(Json::Text(t)) if t == VOTE));
    assert!(matches!(doc.get("description"), Some(Json::Text(t)) if t == "vote \"quoted\""));
    assert!(matches!(doc.get("status"), Some(Json::Text(t)) if t == "active"));
    assert!(matches!(
        doc.get("sinceSlot"),
        Some(Json::Number(JsonNumber { unsigned: Some(42), .. }))
    ));
    let doc = report.features[1].to_json();
    assert!(matches!(doc.get("status"), Some(Json::Text(t)) if t == "inactive"));
    assert!(matches!(doc.get("sinceSlot"), Some(Json::Null)));
    assert_eq!(FeatureStatus::Active.word(), "active");
    assert_eq!(FeatureStatus::Inactive.word(), "inactive");
}

#[test]
fn written_report_is_read_back() {
    let report = sample();
    let doc = report.to_json();
    let read = FeatureStatusReport::from_json(&doc).unwrap();
    assert_eq!(read.features.len(), report.features.len());
    for (a, b) in read.features.iter().zip(report.features.iter()) {
        assert_eq!(a.id.bytes, b.id.bytes);
        assert_eq!(a.description, b.description);
        assert_eq!(a.status, b.status);
        assert_eq!(a.since_slot, b.since_slot);
    }
    assert_eq!(read.feature_activation_allowed, report.feature_activation_allowed);
    assert_eq!(read.cluster_feature_sets.tool_feature_set, 7);
    let (a, b) =
        (&read.cluster_feature_sets.feature_sets[0], &report.cluster_feature_sets.feature_sets[0]);
    assert_eq!(a.software_versions, b.software_versions);
    assert_eq!(a.feature_set, b.feature_set);
    assert_eq!(a.stake_percent, b.stake_percent);
    assert_eq!(a.rpc_percent, b.rpc_percent);
    assert_eq!(read.cluster_software_versions.tool_software_version, "1.1");
    let (a, b) = (
        &read.cluster_software_versions.software_versions[0],
        &report.cluster_software_versions.software_versions[0],
    );
    assert_eq!(a.software_version, b.software_version);
    assert_eq!(a.stake_percent, b.stake_percent);
    assert_eq!(a.rpc_percent, b.rpc_percent);
}

#[test]
fn activity_survives_writing_and_reading() {
    let report = sample();
    let read = FeatureStatusReport::from_json(&report.to_json()).unwrap();
    for feature in report.features.iter() {
        assert_eq!(read.is_active(&feature.id), report.is_active(&feature.id));
    }
    assert!(read.is_active(&FeatureId::parse(VOTE).unwrap()));
    assert!(!read.is_active(&FeatureId::parse(STAKE).unwrap()));
    assert!(!read.is_active(&FeatureId::parse(SYSTEM).unwrap()));
}

#[test]
fn written_report_without_a_member_is_refused() {
    let doc = sample().to_json();
    let members = match doc {
        Json::Object(members) => members,
        _ => panic!("an object"),
    };
    let kept: Vec<(String, Json)> =
        members.into_iter().filter(|(k, _)| k != "featureActivationAllowed").collect();
    assert_eq!(kept.len(), 3);
    assert_eq!(
        FeatureStatusReport::from_json(&Json::Object(kept)).unwrap_err(),
        FormatError::Missing(Field::FeatureActivationAllowed)
    );
}
