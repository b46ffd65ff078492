use feature_status::extract::declarations;
use regex::Regex;

const UPSTREAM: &str = r#"//! Feature set.
use {
    lazy_static::lazy_static,
    solana_sdk::{hash::Hash, pubkey::Pubkey},
    std::collections::{HashMap, HashSet},
};

pub mod deprecate_rewards_sysvar {
    solana_sdk::declare_id!("GaBtBJvmS4Arjj5W1NmFcyvPjsHN38UGYDq2MDwbs9Qu");
}

pub mod pico_inflation {
    solana_sdk::declare_id!("4RWNif6C2WCNiKVW7otP4G7dkmkHGyKQWRpuZ1pxKU5m");
}

pub mod full_inflation {
    pub mod devnet_and_testnet {
        solana_sdk::declare_id!("DT4n6ABDqs6w4bnfwrXT9rsprcPf6cdDga1egctaPkLC");
    }

    pub mod mainnet {
        pub mod certusone {
            pub mod vote {
                solana_sdk::declare_id!("BzBBveUDymEYoYzcMWNQCx3cd4jQs7puaVFHLtsbB6fm");
            }
            pub mod enable {
                solana_sdk::declare_id!("7XRJcS5Ud5vxGB54JbK9N2vBZVwnwdBNeJW1ibRgD9gx");
            }
        }
    }
}

pub mod secp256k1_program_enabled	{solana_sdk::declare_id!("E3PHP7w8kB7np3CTQ1qQ2tW3KCtjRSXBQgW9vM2mWv2Y");}

pub mod spl_token_v2_multisig_fix {
    solana_sdk::declare_id!("E5JiFDQCwyC6QfT9REFyMpfK2mHcmv1GUDySU1Ue7TYv");
}

lazy_static! {
    /// Map of feature identifiers to user-visible description
    pub static ref FEATURE_NAMES: HashMap<Pubkey, &'static str> = [
        (secp256k1_program_enabled::id(), "secp256k1 program"),
        (deprecate_rewards_sysvar::id(), "deprecate unused rewards sysvar"),
    ]
    .iter()
    .cloned()
    .collect();
}
"#;

fn by_expression(text: &str) -> Vec<(String, String)> {
    let module_regex =
        Regex::new(r#"pub mod (\w+)\s*\{\s*solana_sdk::declare_id!\(\"([a-zA-Z0-9]+)\"\);"#)
            .unwrap();
    module_regex
        .captures_iter(text)
        .map(|cap| (cap[1].to_string(), cap[2].to_string()))
        .collect()
}

#[test]
fn upstream_layout_gives_what_the_expression_gives() {
    let found = declarations(UPSTREAM);
    assert_eq!(found, by_expression(UPSTREAM));
    let names: Vec<&str> = found.iter().map(|(name, _)| name.as_str()).collect();
    assert_eq!(
        names,
        vec![
            "deprecate_rewards_sysvar",
            "pico_inflation",
            "devnet_and_testnet",
            "vote",
            "enable",
            "secp256k1_program_enabled",
            "spl_token_v2_multisig_fix"
        ]
    );
    assert_eq!(found[3].1, "BzBBveUDymEYoYzcMWNQCx3cd4jQs7puaVFHLtsbB6fm");
}

#[test]
fn plain_blocks_go_beyond_the_expression() {
    let text = "mod alpha { declare_id(\"11111111111111111111111111111111\"); }";
    assert!(by_expression(text).is_empty());
    assert_eq!(
        declarations(text),
        vec![("alpha".to_string(), "11111111111111111111111111111111".to_string())]
    );
}
