use feature_status::classify::{
    classify, label_with_id, Bucket, Classification, ConfigurationError, NamedIdentifier, Reports,
};
use feature_status::emit::{emit, EmitError};
use feature_status::extract::extract;
use feature_status::identifier::{FeatureId, IdError};
use feature_status::network::Network;
use feature_status::render::render;
use feature_status::status_report::{
    ClusterFeatureSets, ClusterSoftwareVersions, Feature, FeatureStatus, FeatureStatusReport,
};

const SYSTEM: &str = "11111111111111111111111111111111";
const VOTE: &str = "Vote111111111111111111111111111111111111111";
const STAKE: &str = "Stake11111111111111111111111111111111111111";
const CONFIG: &str = "Config1111111111111111111111111111111111111";

fn id(text: &str) -> FeatureId {
    FeatureId::parse(text).unwrap()
}

fn report(entries: &[(&str, FeatureStatus)]) -> FeatureStatusReport {
    FeatureStatusReport {
        features: entries
            .iter()
            .map(|(text, status)| Feature {
                id: id(text),
                description: String::new(),
                status: *status,
                since_slot: None,
            })
            .collect(),
        feature_activation_allowed: true,
        cluster_feature_sets: ClusterFeatureSets { tool_feature_set: 0, feature_sets: vec![] },
        cluster_software_versions: ClusterSoftwareVersions {
            tool_software_version: String::new(),
            software_versions: vec![],
        },
    }
}

fn named(name: &str, text: &str) -> NamedIdentifier {
    NamedIdentifier { name: name.to_string(), id: id(text) }
}

fn labels(names: &[&str]) -> Vec<String> {
    names.iter().map(|n| format!("{}::id()", n)).collect()
}

fn buckets(c: &Classification) -> [Vec<String>; 4] {
    [
        c.inactive.clone(),
        c.active_testnet.clone(),
        c.active_devnet.clone(),
        c.active_mainnet.clone(),
    ]
}

fn empty_listing(version: &str) -> String {
    format!(
        "\n// List of agave supported feature flags.\n// As of `{}`.\nstatic AGAVE_FEATURES: &[Pubkey] = &[\n    // Inactive on all clusters.\n    \n    // Active on testnet.\n    \n    // Active on devnet.\n    \n    // Active on mainnet-beta.\n    \n];\n",
        version
    )
}

#[test]
fn query_needs_an_active_entry() {
    let r = report(&[(VOTE, FeatureStatus::Active), (STAKE, FeatureStatus::Inactive)]);
    assert!(r.is_active(&id(VOTE)));
    assert!(!r.is_active(&id(STAKE)));
    assert!(!r.is_active(&id(SYSTEM)));
    assert!(!report(&[]).is_active(&id(VOTE)));
}

#[test]
fn query_tolerates_repeated_entries() {
    let r = report(&[
        (VOTE, FeatureStatus::Inactive),
        (VOTE, FeatureStatus::Active),
        (STAKE, FeatureStatus::Active),
        (STAKE, FeatureStatus::Inactive),
        (CONFIG, FeatureStatus::Inactive),
        (CONFIG, FeatureStatus::Inactive),
    ]);
    assert!(r.is_active(&id(VOTE)));
    assert!(r.is_active(&id(STAKE)));
    assert!(!r.is_active(&id(CONFIG)));
}

#[test]
fn label_is_the_name_and_the_call() {
    assert_eq!(label_with_id(&"alpha".to_string()), "alpha::id()");
    assert_eq!(label_with_id(&String::new()), "::id()");
}

#[test]
fn alpha_inactive_beta_on_mainnet() {
    let text = format!(
        "mod alpha {{ declare_id(\"{}\"); }}\nmod beta {{ declare_id(\"{}\"); }}",
        SYSTEM, VOTE
    );
    let features = extract(&text).unwrap();
    let devnet = report(&[(SYSTEM, FeatureStatus::Inactive), (VOTE, FeatureStatus::Inactive)]);
    let testnet = report(&[(SYSTEM, FeatureStatus::Inactive), (VOTE, FeatureStatus::Inactive)]);
    let mainnet = report(&[(SYSTEM, FeatureStatus::Inactive), (VOTE, FeatureStatus::Active)]);
    let reports = Reports { devnet: &devnet, testnet: &testnet, mainnet_beta: &mainnet };
    let c = classify(&features, &reports);
    assert_eq!(buckets(&c), [labels(&["alpha"]), vec![], vec![], labels(&["beta"])]);
}

#[test]
fn second_identifier_of_all_twos_is_refused() {
    let text = "mod alpha { declare_id(\"11111111111111111111111111111111\"); }\nmod beta { declare_id(\"22222222222222222222222222222222\"); }";
    let err = extract(text).unwrap_err();
    assert_eq!(err.name, "beta");
    assert_eq!(err.reason, IdError::WrongSize);
}

#[test]
fn alpha_and_beta_by_their_bytes() {
    let features = vec![
        NamedIdentifier { name: "alpha".to_string(), id: FeatureId { bytes: [1u8; 32] } },
        NamedIdentifier { name: "beta".to_string(), id: FeatureId { bytes: [2u8; 32] } },
    ];
    let entry = |bytes: [u8; 32], status| Feature {
        id: FeatureId { bytes },
        description: String::new(),
        status,
        since_slot: None,
    };
    let mut quiet = report(&[]);
    quiet.features =
        vec![entry([1u8; 32], FeatureStatus::Inactive), entry([2u8; 32], FeatureStatus::Inactive)];
    let mut mainnet = report(&[]);
    mainnet.features =
        vec![entry([1u8; 32], FeatureStatus::Inactive), entry([2u8; 32], FeatureStatus::Active)];
    let reports = Reports { devnet: &quiet, testnet: &quiet, mainnet_beta: &mainnet };
    let c = classify(&features, &reports);
    assert_eq!(buckets(&c), [labels(&["alpha"]), vec![], vec![], labels(&["beta"])]);
}

#[test]
fn highest_cluster_decides() {
    let features = vec![
        named("everywhere", VOTE),
        named("dev_and_test", STAKE),
        named("test_only", CONFIG),
        named("nowhere", SYSTEM),
    ];
    let testnet = report(&[
        (VOTE, FeatureStatus::Active),
        (STAKE, FeatureStatus::Active),
        (CONFIG, FeatureStatus::Active),
    ]);
    let devnet = report(&[(VOTE, FeatureStatus::Active), (STAKE, FeatureStatus::Active)]);
    let mainnet = report(&[(VOTE, FeatureStatus::Active), (STAKE, FeatureStatus::Inactive)]);
    let reports = Reports { devnet: &devnet, testnet: &testnet, mainnet_beta: &mainnet };
    assert_eq!(reports.bucket_of(&id(VOTE)), Bucket::ActiveMainnet);
    assert_eq!(reports.bucket_of(&id(STAKE)), Bucket::ActiveDevnet);
    assert_eq!(reports.bucket_of(&id(CONFIG)), Bucket::ActiveTestnet);
    assert_eq!(reports.bucket_of(&id(SYSTEM)), Bucket::Inactive);
    let c = classify(&features, &reports);
    assert_eq!(
        buckets(&c),
        [
            labels(&["nowhere"]),
            labels(&["test_only"]),
            labels(&["dev_and_test"]),
            labels(&["everywhere"])
        ]
    );
}

#[test]
fn mainnet_alone_is_enough() {
    let quiet = report(&[]);
    let mainnet = report(&[(VOTE, FeatureStatus::Active)]);
    let only_mainnet = Reports { devnet: &quiet, testnet: &quiet, mainnet_beta: &mainnet };
    assert_eq!(only_mainnet.bucket_of(&id(VOTE)), Bucket::ActiveMainnet);
    let only_devnet = Reports { devnet: &mainnet, testnet: &quiet, mainnet_beta: &quiet };
    assert_eq!(only_devnet.bucket_of(&id(VOTE)), Bucket::ActiveDevnet);
    let only_testnet = Reports { devnet: &quiet, testnet: &mainnet, mainnet_beta: &quiet };
    assert_eq!(only_testnet.bucket_of(&id(VOTE)), Bucket::ActiveTestnet);
}

#[test]
fn every_feature_lands_in_one_bucket_in_order() {
    let features = vec![
        named("a", VOTE),
        named("b", SYSTEM),
        named("c", STAKE),
        named("d", VOTE),
        named("e", SYSTEM),
        named("f", CONFIG),
        named("g", STAKE),
    ];
    let testnet = report(&[(CONFIG, FeatureStatus::Active), (STAKE, FeatureStatus::Active)]);
    let devnet = report(&[(STAKE, FeatureStatus::Active)]);
    let mainnet = report(&[(VOTE, FeatureStatus::Active)]);
    let reports = Reports { devnet: &devnet, testnet: &testnet, mainnet_beta: &mainnet };
    let c = classify(&features, &reports);
    assert_eq!(
        buckets(&c),
        [labels(&["b", "e"]), labels(&["f"]), labels(&["c", "g"]), labels(&["a", "d"])]
    );
    let total: usize = buckets(&c).iter().map(|b| b.len()).sum();
    assert_eq!(total, features.len());
    let mut all: Vec<String> = buckets(&c).concat();
    all.sort();
    assert_eq!(all, labels(&["a", "b", "c", "d", "e", "f", "g"]));
}

#[test]
fn selection_takes_one_report_for_each_cluster() {
    let list = vec![
        (Network::MainnetBeta, report(&[(VOTE, FeatureStatus::Active)])),
        (Network::Testnet, report(&[(STAKE, FeatureStatus::Active)])),
        (Network::Devnet, report(&[(CONFIG, FeatureStatus::Active)])),
    ];
    let selected = Reports::select(&list).unwrap();
    assert!(selected.mainnet_beta.is_active(&id(VOTE)));
    assert!(selected.testnet.is_active(&id(STAKE)));
    assert!(selected.devnet.is_active(&id(CONFIG)));
    assert!(!selected.devnet.is_active(&id(VOTE)));
}

#[test]
fn selection_refuses_a_wrong_count() {
    let two = vec![(Network::Devnet, report(&[])), (Network::Testnet, report(&[]))];
    assert_eq!(Reports::select(&two).err(), Some(ConfigurationError::WrongCount));
    assert_eq!(Reports::select(&[]).err(), Some(ConfigurationError::WrongCount));
    let four = vec![
        (Network::Devnet, report(&[])),
        (Network::Testnet, report(&[])),
        (Network::MainnetBeta, report(&[])),
        (Network::MainnetBeta, report(&[])),
    ];
    assert_eq!(Reports::select(&four).err(), Some(ConfigurationError::WrongCount));
}

#[test]
fn selection_names_the_missing_cluster() {
    let no_mainnet = vec![
        (Network::Devnet, report(&[])),
        (Network::Testnet, report(&[])),
        (Network::Testnet, report(&[])),
    ];
    assert_eq!(
        Reports::select(&no_mainnet).err(),
        Some(ConfigurationError::MissingReport(Network::MainnetBeta))
    );
    let no_testnet = vec![
        (Network::Devnet, report(&[])),
        (Network::MainnetBeta, report(&[])),
        (Network::MainnetBeta, report(&[])),
    ];
    assert_eq!(
        Reports::select(&no_testnet).err(),
        Some(ConfigurationError::MissingReport(Network::Testnet))
    );
    let only_mainnet = vec![
        (Network::MainnetBeta, report(&[])),
        (Network::MainnetBeta, report(&[])),
        (Network::MainnetBeta, report(&[])),
    ];
    assert_eq!(
        Reports::select(&only_mainnet).err(),
        Some(ConfigurationError::MissingReport(Network::Devnet))
    );
}

#[test]
fn nothing_declared_gives_four_empty_groups() {
    let features = extract("// nothing to see\n").unwrap();
    assert!(features.is_empty());
    let quiet = report(&[]);
    let reports = Reports { devnet: &quiet, testnet: &quiet, mainnet_beta: &quiet };
    let c = classify(&features, &reports);
    assert_eq!(buckets(&c), [vec![], vec![], vec![], Vec::<String>::new()]);
    assert_eq!(render("2.0.0", &c), empty_listing("2.0.0"));
}

#[test]
fn listing_has_a_comma_after_each_group_but_the_last() {
    let c = Classification {
        inactive: labels(&["a", "b"]),
        active_testnet: labels(&["c"]),
        active_devnet: vec![],
        active_mainnet: labels(&["d", "e"]),
    };
    let expected = "\n// List of agave supported feature flags.\n// As of `1.2.3`.\nstatic AGAVE_FEATURES: &[Pubkey] = &[\n    // Inactive on all clusters.\n    a::id(),\n    b::id(),\n    // Active on testnet.\n    c::id(),\n    // Active on devnet.\n    \n    // Active on mainnet-beta.\n    d::id(),\n    e::id()\n];\n";
    assert_eq!(render("1.2.3", &c), expected);
}

#[test]
fn rendering_twice_gives_the_same_bytes() {
    let c = Classification {
        inactive: labels(&["a"]),
        active_testnet: vec![],
        active_devnet: labels(&["b", "c"]),
        active_mainnet: vec![],
    };
    assert_eq!(render("v", &c).into_bytes(), render("v", &c).into_bytes());
}

#[test]
fn emit_makes_the_whole_listing() {
    let text = format!(
        "pub mod one {{\n    solana_sdk::declare_id!(\"{}\");\n}}\npub mod two {{\n    solana_sdk::declare_id!(\"{}\");\n}}\npub mod three {{\n    solana_sdk::declare_id!(\"{}\");\n}}\n",
        VOTE, STAKE, SYSTEM
    );
    let reports = vec![
        (Network::Devnet, report(&[(STAKE, FeatureStatus::Active)])),
        (Network::Testnet, report(&[(STAKE, FeatureStatus::Active)])),
        (Network::MainnetBeta, report(&[(VOTE, FeatureStatus::Active)])),
    ];
    let expected = "\n// List of agave supported feature flags.\n// As of `2.1.0`.\nstatic AGAVE_FEATURES: &[Pubkey] = &[\n    // Inactive on all clusters.\n    three::id(),\n    // Active on testnet.\n    \n    // Active on devnet.\n    two::id(),\n    // Active on mainnet-beta.\n    one::id()\n];\n";
    assert_eq!(emit("2.1.0", &text, &reports).unwrap(), expected);
}

#[test]
fn emit_of_nothing_is_the_empty_listing() {
    let reports = vec![
        (Network::Devnet, report(&[(STAKE, FeatureStatus::Active)])),
        (Network::Testnet, report(&[])),
        (Network::MainnetBeta, report(&[])),
    ];
    assert_eq!(emit("9", "", &reports).unwrap(), empty_listing("9"));
}

#[test]
fn emit_reports_what_is_wrong() {
    let good = format!("mod a {{ declare_id(\"{}\"); }}", VOTE);
    let reports = vec![
        (Network::Devnet, report(&[])),
        (Network::Testnet, report(&[])),
        (Network::MainnetBeta, report(&[])),
    ];
    match emit("1", "mod a { declare_id(\"abc\"); }", &reports) {
        Err(EmitError::Parse(e)) => {
            assert_eq!(e.name, "a");
            assert_eq!(e.reason, IdError::WrongSize);
        }
        other => panic!("expected a parse error, got {:?}", other),
    }
    match emit("1", &good, &reports[..2]) {
        Err(EmitError::Configuration(e)) => assert_eq!(e, ConfigurationError::WrongCount),
        other => panic!("expected a configuration error, got {:?}", other),
    }
    match emit("1", "mod a { declare_id(\"abc\"); }", &reports[..2]) {
        Err(EmitError::Parse(_)) => {}
        other => panic!("the definition is read first, got {:?}", other),
    }
}
