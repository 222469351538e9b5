use ncn_core::{CliSettings, Cluster};

#[test]
fn cluster_names() {
    assert_eq!(Cluster::Mainnet.as_str(), "mainnet");
    assert_eq!(Cluster::Testnet.as_str(), "testnet");
    assert_eq!(Cluster::Localnet.as_str(), "localnet");
}

fn settings() -> CliSettings {
    CliSettings {
        rpc_url: "https://api.mainnet-beta.solana.com".to_string(),
        commitment: "confirmed".to_string(),
        ncn_program_id: "NcnProgram1111".to_string(),
        restaking_program_id: "Restaking1111".to_string(),
        vault_program_id: "Vault1111".to_string(),
        token_program_id: "Token1111".to_string(),
        ncn: None,
        epoch: None,
        keypair_path: None,
        verbose: false,
        markdown_help: false,
    }
}

#[test]
fn summary_with_defaults() {
    let expected = [
        "\n NCN Program CLI Configuration\n",
        "═══════════════════════════════════════\n",
        "\n📡 Network Settings:\n",
        "  • RPC URL:     https://api.mainnet-beta.solana.com\n",
        "  • Commitment:  confirmed\n",
        "\n🔑 Program IDs:\n",
        "  • NCN Program:        NcnProgram1111\n",
        "  • Restaking:         Restaking1111\n",
        "  • Vault:             Vault1111\n",
        "  • Token:             Token1111\n",
        "\n◎  Solana Settings:\n",
        "  • Keypair Path:  Not Set\n",
        "  • NCN:  Not Set\n",
        "  • Epoch: Current\n",
        "\n⚙️  Additional Settings:\n",
        "  • Verbose Mode:  Disabled\n",
        "  • Markdown Help: Disabled\n",
        "\n\n",
    ]
    .concat();
    assert_eq!(settings().summary(), expected);
}

#[test]
fn summary_with_everything_set() {
    let mut s = settings();
    s.keypair_path = Some("~/.config/solana/id.json".to_string());
    s.ncn = Some("Ncn1111".to_string());
    s.epoch = Some(18_446_744_073_709_551_615);
    s.verbose = true;
    s.markdown_help = true;
    let text = s.summary();
    assert!(text.contains("  • Keypair Path:  ~/.config/solana/id.json\n"));
    assert!(text.contains("  • NCN:  Ncn1111\n"));
    assert!(text.contains("  • Epoch: 18446744073709551615\n"));
    assert!(text.contains("  • Verbose Mode:  Enabled\n"));
    assert!(text.contains("  • Markdown Help: Enabled\n"));
}

#[test]
fn epoch_zero_and_small() {
    let mut s = settings();
    s.epoch = Some(0);
    assert!(s.summary().contains("  • Epoch: 0\n"));
    s.epoch = Some(705);
    assert!(s.summary().contains("  • Epoch: 705\n"));
}
