//! The clusters whose feature activations are tracked.

use vstd::prelude::*;

verus! {

/// A cluster. Features are activated on testnet first, then on devnet,
/// then on mainnet-beta.
#[derive(Clone, Copy, Debug, PartialEq, Eq, Structural)]
pub enum Network {
    Devnet,
    Testnet,
    MainnetBeta,
}

impl Network {
    /// The command-line flag that selects this cluster.
    pub open spec fn spec_moniker(self) -> Seq<char> {
        match self {
            Network::Devnet => "-ud"@,
            Network::Testnet => "-ut"@,
            Network::MainnetBeta => "-um"@,
        }
    }

    /// The path under which this cluster's status document is kept.
    pub open spec fn spec_filename(self) -> Seq<char> {
        match self {
            Network::Devnet => "dir/devnet.json"@,
            Network::Testnet => "dir/testnet.json"@,
            Network::MainnetBeta => "dir/mainnet-beta.json"@,
        }
    }

    /// The shell command that asks the `solana` tool for this cluster's
    /// status document.
    pub open spec fn spec_status_command(self) -> Seq<char> {
        "solana feature status --display-all --output json "@ + self.spec_moniker()
    }

    /// The command-line flag that selects this cluster.
    pub fn moniker(&self) -> (r: &'static str)
        ensures
            r@ == self.spec_moniker(),
    {
        match self {
            Network::Devnet => "-ud",
            Network::Testnet => "-ut",
            Network::MainnetBeta => "-um",
        }
    }

    /// Writes the shell command that asks the `solana` tool for this
    /// cluster's status document.
    pub fn status_command(&self) -> (r: String)
        ensures
            r@ == self.spec_status_command(),
    {
        let mut command = String::from_str("solana feature status --display-all --output json ");
        command.append(self.moniker());
        command
    }

    /// The path under which this cluster's status document is kept.
    pub fn filename(&self) -> (r: &'static str)
        ensures
            r@ == self.spec_filename(),
    {
        match self {
            Network::Devnet => "dir/devnet.json",
            Network::Testnet => "dir/testnet.json",
            Network::MainnetBeta => "dir/mainnet-beta.json",
        }
    }
}

} // verus!
