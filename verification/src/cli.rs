//! The command-line pieces that are plain computation: cluster names, the
//! summary of the global settings, and the decimal text of numbers.

use vstd::prelude::*;
use vstd::string::*;

verus! {

/// A Solana cluster that the command line can target.
#[derive(Clone, Copy, Debug)]
pub enum Cluster {
    Mainnet,
    Testnet,
    Localnet,
}

impl Cluster {
    /// The name under which the cluster is shown.
    pub open spec fn spec_name(self) -> Seq<char> {
        match self {
            Cluster::Mainnet => "mainnet"@,
            Cluster::Testnet => "testnet"@,
            Cluster::Localnet => "localnet"@,
        }
    }

    /// The name under which the cluster is shown: "mainnet", "testnet" or
    /// "localnet".
    pub fn as_str(&self) -> (s: &'static str)
        ensures
            s@ == self.spec_name(),
    {
        match self {
            Cluster::Mainnet => "mainnet",
            Cluster::Testnet => "testnet",
            Cluster::Localnet => "localnet",
        }
    }
}

/// The character of the decimal digit `d`.
pub open spec fn digit_char(d: nat) -> char
    recommends
        d < 10,
{
    (d + 48) as char
}

/// The decimal text of `n`: its digits, most significant first, with no
/// leading zero.
pub open spec fn decimal_text(n: nat) -> Seq<char>
    decreases n,
{
    if n < 10 {
        seq![digit_char(n)]
    } else {
        decimal_text(n / 10).push(digit_char(n % 10))
    }
}

/// The number that decimal digits spell, most significant first.
pub open spec fn digits_value(text: Seq<char>) -> nat
    decreases text.len(),
{
    if text.len() == 0 {
        0
    } else {
        digits_value(text.drop_last()) * 10 + ((text.last() as int - 48) as nat)
    }
}

/// The decimal text of a number is a non-empty string of the digits '0' to
/// '9' that spells the number back, and has no leading zero.
pub proof fn lemma_decimal_text_spells_number(n: nat)
    ensures
        decimal_text(n).len() > 0,
        forall|i: int|
            0 <= i < decimal_text(n).len() ==> '0' <= #[trigger] decimal_text(n)[i] <= '9',
        digits_value(decimal_text(n)) == n,
        n > 0 ==> decimal_text(n)[0] != '0',
    decreases n,
{
    if n >= 10 {
        lemma_decimal_text_spells_number(n / 10);
        let t = decimal_text(n);
        assert(t.drop_last() =~= decimal_text(n / 10));
        assert(n == (n / 10) * 10 + n % 10);
        assert(t[0] == decimal_text(n / 10)[0]);
        let d = n % 10;
        assert(t.last() == digit_char(d));
        assert(digit_char(d) as int == d + 48);
        assert(digits_value(t) == digits_value(t.drop_last()) * 10 + ((t.last() as int - 48) as nat));
        assert(digits_value(t.drop_last()) == n / 10);
        assert(((t.last() as int - 48) as nat) == d);
    } else {
        let t = decimal_text(n);
        assert(t.drop_last() =~= Seq::<char>::empty());
        assert(digit_char(n) as int == n + 48);
        assert(digits_value(t) == digits_value(t.drop_last()) * 10 + ((t.last() as int - 48) as nat));
    }
}

/// Calls `to_string` on a `u64`, through its `Display`, which writes the
/// number's decimal digits with no sign, padding or leading zero. The
/// contract states exactly that.
#[verifier::external_body]
pub(crate) fn u64_text(n: u64) -> (s: String)
    ensures
        s@ == decimal_text(n as nat),
{
    n.to_string()
}

/// One line of the summary: a label, a value, and the end of the line.
pub open spec fn summary_line(label: Seq<char>, value: Seq<char>) -> Seq<char> {
    label + value + "\n"@
}

/// The text of an optional setting: its value, or "Not Set".
pub open spec fn or_not_set(value: Option<String>) -> Seq<char> {
    match value {
        Some(v) => v@,
        None => "Not Set"@,
    }
}

/// The text of a switch: "Enabled" or "Disabled".
pub open spec fn enabled_text(on: bool) -> Seq<char> {
    if on {
        "Enabled"@
    } else {
        "Disabled"@
    }
}

/// The text of the epoch setting: the epoch's number, or "Current" when
/// none is given.
pub open spec fn epoch_text(epoch: Option<u64>) -> Seq<char> {
    match epoch {
        Some(e) => decimal_text(e as nat),
        None => "Current"@,
    }
}

fn push_line(out: &mut String, label: &str, value: &str)
    ensures
        final(out)@ == old(out)@ + summary_line(label@, value@),
{
    out.append(label);
    out.append(value);
    out.append("\n");
    assert(final(out)@ =~= old(out)@ + summary_line(label@, value@));
}

/// The global settings of the command line, as the summary shows them.
pub struct CliSettings {
    pub rpc_url: String,
    pub commitment: String,
    pub ncn_program_id: String,
    pub restaking_program_id: String,
    pub vault_program_id: String,
    pub token_program_id: String,
    pub ncn: Option<String>,
    pub epoch: Option<u64>,
    pub keypair_path: Option<String>,
    pub verbose: bool,
    pub markdown_help: bool,
}

impl CliSettings {
    /// The summary text of the settings.
    pub open spec fn summary_text(&self) -> Seq<char> {
        "\n NCN Program CLI Configuration\n"@
            + "═══════════════════════════════════════\n"@
            + "\n📡 Network Settings:\n"@
            + summary_line("  • RPC URL:     "@, self.rpc_url@)
            + summary_line("  • Commitment:  "@, self.commitment@)
            + "\n🔑 Program IDs:\n"@
            + summary_line("  • NCN Program:        "@, self.ncn_program_id@)
            + summary_line("  • Restaking:         "@, self.restaking_program_id@)
            + summary_line("  • Vault:             "@, self.vault_program_id@)
            + summary_line("  • Token:             "@, self.token_program_id@)
            + "\n◎  Solana Settings:\n"@
            + summary_line("  • Keypair Path:  "@, or_not_set(self.keypair_path))
            + summary_line("  • NCN:  "@, or_not_set(self.ncn))
            + summary_line("  • Epoch: "@, epoch_text(self.epoch))
            + "\n⚙️  Additional Settings:\n"@
            + summary_line("  • Verbose Mode:  "@, enabled_text(self.verbose))
            + summary_line("  • Markdown Help: "@, enabled_text(self.markdown_help))
            + "\n\n"@
    }

    /// Writes the summary of the settings: the network, the program IDs,
    /// the Solana settings (an unset keypair path or NCN shows as "Not Set",
    /// an unset epoch as "Current") and the switches ("Enabled" or
    /// "Disabled"), one per line under four headings.
    pub fn summary(&self) -> (s: String)
        ensures
            s@ == self.summary_text(),
    {
        let mut out = String::from_str("\n NCN Program CLI Configuration\n");
        out.append("═══════════════════════════════════════\n");
        out.append("\n📡 Network Settings:\n");
        push_line(&mut out, "  • RPC URL:     ", self.rpc_url.as_str());
        push_line(&mut out, "  • Commitment:  ", self.commitment.as_str());
        out.append("\n🔑 Program IDs:\n");
        push_line(&mut out, "  • NCN Program:        ", self.ncn_program_id.as_str());
        push_line(&mut out, "  • Restaking:         ", self.restaking_program_id.as_str());
        push_line(&mut out, "  • Vault:             ", self.vault_program_id.as_str());
        push_line(&mut out, "  • Token:             ", self.token_program_id.as_str());
        out.append("\n◎  Solana Settings:\n");
        match &self.keypair_path {
            Some(path) => push_line(&mut out, "  • Keypair Path:  ", path.as_str()),
            None => push_line(&mut out, "  • Keypair Path:  ", "Not Set"),
        }
        match &self.ncn {
            Some(ncn) => push_line(&mut out, "  • NCN:  ", ncn.as_str()),
            None => push_line(&mut out, "  • NCN:  ", "Not Set"),
        }
        match self.epoch {
            Some(epoch) => {
                let text = u64_text(epoch);
                push_line(&mut out, "  • Epoch: ", text.as_str());
            },
            None => push_line(&mut out, "  • Epoch: ", "Current"),
        }
        out.append("\n⚙️  Additional Settings:\n");
        push_line(&mut out, "  • Verbose Mode:  ", if self.verbose { "Enabled" } else { "Disabled" });
        push_line(&mut out, "  • Markdown Help: ", if self.markdown_help { "Enabled" } else { "Disabled" });
        out.append("\n\n");
        out
    }
}

} // verus!

verus! {

/// `line` stands somewhere in `text`.
pub open spec fn has_line(text: Seq<char>, line: Seq<char>) -> bool {
    exists|i: int|
        0 <= i && i + line.len() <= text.len() && #[trigger] text.subrange(i, i + line.len())
            == line
}

proof fn lemma_line_at_end(before: Seq<char>, line: Seq<char>)
    ensures
        has_line(before + line, line),
{
    let text = before + line;
    let i = before.len() as int;
    assert(text.subrange(i, i + line.len()) =~= line);
}

proof fn lemma_has_line_extend(text: Seq<char>, more: Seq<char>, line: Seq<char>)
    requires
        has_line(text, line),
    ensures
        has_line(text + more, line),
{
    let i = choose|i: int|
        0 <= i && i + line.len() <= text.len() && #[trigger] text.subrange(i, i + line.len())
            == line;
    assert((text + more).subrange(i, i + line.len()) =~= text.subrange(i, i + line.len()));
}

/// Each setting appears in the summary on its own labelled line, with its
/// own value, whatever the other settings hold: the network and program
/// settings as they are, an unset keypair path or NCN as "Not Set", an
/// unset epoch as "Current", and each switch as "Enabled" exactly when it is
/// on and "Disabled" otherwise.
#[verifier::spinoff_prover]
#[verifier::rlimit(60)]
pub proof fn lemma_summary_shows_each_setting(s: CliSettings)
    ensures
        has_line(s.summary_text(), "  • RPC URL:     "@ + s.rpc_url@ + "\n"@),
        has_line(s.summary_text(), "  • Commitment:  "@ + s.commitment@ + "\n"@),
        has_line(s.summary_text(), "  • NCN Program:        "@ + s.ncn_program_id@ + "\n"@),
        has_line(s.summary_text(), "  • Restaking:         "@ + s.restaking_program_id@ + "\n"@),
        has_line(s.summary_text(), "  • Vault:             "@ + s.vault_program_id@ + "\n"@),
        has_line(s.summary_text(), "  • Token:             "@ + s.token_program_id@ + "\n"@),
        s.keypair_path is Some ==> has_line(
            s.summary_text(),
            "  • Keypair Path:  "@ + s.keypair_path->0@ + "\n"@,
        ),
        s.keypair_path is None ==> has_line(
            s.summary_text(),
            "  • Keypair Path:  "@ + "Not Set"@ + "\n"@,
        ),
        s.ncn is Some ==> has_line(
            s.summary_text(),
            "  • NCN:  "@ + s.ncn->0@ + "\n"@,
        ),
        s.ncn is None ==> has_line(
            s.summary_text(),
            "  • NCN:  "@ + "Not Set"@ + "\n"@,
        ),
        s.epoch is Some ==> has_line(
            s.summary_text(),
            "  • Epoch: "@ + decimal_text(s.epoch->0 as nat) + "\n"@,
        ),
        s.epoch is None ==> has_line(
            s.summary_text(),
            "  • Epoch: "@ + "Current"@ + "\n"@,
        ),
        s.verbose ==> has_line(
            s.summary_text(),
            "  • Verbose Mode:  "@ + "Enabled"@ + "\n"@,
        ),
        !s.verbose ==> has_line(
            s.summary_text(),
            "  • Verbose Mode:  "@ + "Disabled"@ + "\n"@,
        ),
        s.markdown_help ==> has_line(
            s.summary_text(),
            "  • Markdown Help: "@ + "Enabled"@ + "\n"@,
        ),
        !s.markdown_help ==> has_line(
            s.summary_text(),
            "  • Markdown Help: "@ + "Disabled"@ + "\n"@,
        ),
{
    let ghost t = seq![
        "\n NCN Program CLI Configuration\n"@,
        "═══════════════════════════════════════\n"@,
        "\n📡 Network Settings:\n"@,
        summary_line("  • RPC URL:     "@, s.rpc_url@),
        summary_line("  • Commitment:  "@, s.commitment@),
        "\n🔑 Program IDs:\n"@,
        summary_line("  • NCN Program:        "@, s.ncn_program_id@),
        summary_line("  • Restaking:         "@, s.restaking_program_id@),
        summary_line("  • Vault:             "@, s.vault_program_id@),
        summary_line("  • Token:             "@, s.token_program_id@),
        "\n◎  Solana Settings:\n"@,
        summary_line("  • Keypair Path:  "@, or_not_set(s.keypair_path)),
        summary_line("  • NCN:  "@, or_not_set(s.ncn)),
        summary_line("  • Epoch: "@, epoch_text(s.epoch)),
        "\n⚙️  Additional Settings:\n"@,
        summary_line("  • Verbose Mode:  "@, enabled_text(s.verbose)),
        summary_line("  • Markdown Help: "@, enabled_text(s.markdown_help)),
        "\n\n"@,
    ];
    let ghost p0 = t[0];
    let ghost p1 = p0 + t[1];
    let ghost p2 = p1 + t[2];
    let ghost p3 = p2 + t[3];
    let ghost p4 = p3 + t[4];
    let ghost p5 = p4 + t[5];
    let ghost p6 = p5 + t[6];
    let ghost p7 = p6 + t[7];
    let ghost p8 = p7 + t[8];
    let ghost p9 = p8 + t[9];
    let ghost p10 = p9 + t[10];
    let ghost p11 = p10 + t[11];
    let ghost p12 = p11 + t[12];
    let ghost p13 = p12 + t[13];
    let ghost p14 = p13 + t[14];
    let ghost p15 = p14 + t[15];
    let ghost p16 = p15 + t[16];
    let ghost p17 = p16 + t[17];
    assert(s.summary_text() == p17);
    lemma_line_at_end(p2, t[3]);
    lemma_has_line_extend(p3, t[4], t[3]);
    lemma_has_line_extend(p4, t[5], t[3]);
    lemma_has_line_extend(p5, t[6], t[3]);
    lemma_has_line_extend(p6, t[7], t[3]);
    lemma_has_line_extend(p7, t[8], t[3]);
    lemma_has_line_extend(p8, t[9], t[3]);
    lemma_has_line_extend(p9, t[10], t[3]);
    lemma_has_line_extend(p10, t[11], t[3]);
    lemma_has_line_extend(p11, t[12], t[3]);
    lemma_has_line_extend(p12, t[13], t[3]);
    lemma_has_line_extend(p13, t[14], t[3]);
    lemma_has_line_extend(p14, t[15], t[3]);
    lemma_has_line_extend(p15, t[16], t[3]);
    lemma_has_line_extend(p16, t[17], t[3]);
    lemma_line_at_end(p3, t[4]);
    lemma_has_line_extend(p4, t[5], t[4]);
    lemma_has_line_extend(p5, t[6], t[4]);
    lemma_has_line_extend(p6, t[7], t[4]);
    lemma_has_line_extend(p7, t[8], t[4]);
    lemma_has_line_extend(p8, t[9], t[4]);
    lemma_has_line_extend(p9, t[10], t[4]);
    lemma_has_line_extend(p10, t[11], t[4]);
    lemma_has_line_extend(p11, t[12], t[4]);
    lemma_has_line_extend(p12, t[13], t[4]);
    lemma_has_line_extend(p13, t[14], t[4]);
    lemma_has_line_extend(p14, t[15], t[4]);
    lemma_has_line_extend(p15, t[16], t[4]);
    lemma_has_line_extend(p16, t[17], t[4]);
    lemma_line_at_end(p5, t[6]);
    lemma_has_line_extend(p6, t[7], t[6]);
    lemma_has_line_extend(p7, t[8], t[6]);
    lemma_has_line_extend(p8, t[9], t[6]);
    lemma_has_line_extend(p9, t[10], t[6]);
    lemma_has_line_extend(p10, t[11], t[6]);
    lemma_has_line_extend(p11, t[12], t[6]);
    lemma_has_line_extend(p12, t[13], t[6]);
    lemma_has_line_extend(p13, t[14], t[6]);
    lemma_has_line_extend(p14, t[15], t[6]);
    lemma_has_line_extend(p15, t[16], t[6]);
    lemma_has_line_extend(p16, t[17], t[6]);
    lemma_line_at_end(p6, t[7]);
    lemma_has_line_extend(p7, t[8], t[7]);
    lemma_has_line_extend(p8, t[9], t[7]);
    lemma_has_line_extend(p9, t[10], t[7]);
    lemma_has_line_extend(p10, t[11], t[7]);
    lemma_has_line_extend(p11, t[12], t[7]);
    lemma_has_line_extend(p12, t[13], t[7]);
    lemma_has_line_extend(p13, t[14], t[7]);
    lemma_has_line_extend(p14, t[15], t[7]);
    lemma_has_line_extend(p15, t[16], t[7]);
    lemma_has_line_extend(p16, t[17], t[7]);
    lemma_line_at_end(p7, t[8]);
    lemma_has_line_extend(p8, t[9], t[8]);
    lemma_has_line_extend(p9, t[10], t[8]);
    lemma_has_line_extend(p10, t[11], t[8]);
    lemma_has_line_extend(p11, t[12], t[8]);
    lemma_has_line_extend(p12, t[13], t[8]);
    lemma_has_line_extend(p13, t[14], t[8]);
    lemma_has_line_extend(p14, t[15], t[8]);
    lemma_has_line_extend(p15, t[16], t[8]);
    lemma_has_line_extend(p16, t[17], t[8]);
    lemma_line_at_end(p8, t[9]);
    lemma_has_line_extend(p9, t[10], t[9]);
    lemma_has_line_extend(p10, t[11], t[9]);
    lemma_has_line_extend(p11, t[12], t[9]);
    lemma_has_line_extend(p12, t[13], t[9]);
    lemma_has_line_extend(p13, t[14], t[9]);
    lemma_has_line_extend(p14, t[15], t[9]);
    lemma_has_line_extend(p15, t[16], t[9]);
    lemma_has_line_extend(p16, t[17], t[9]);
    lemma_line_at_end(p10, t[11]);
    lemma_has_line_extend(p11, t[12], t[11]);
    lemma_has_line_extend(p12, t[13], t[11]);
    lemma_has_line_extend(p13, t[14], t[11]);
    lemma_has_line_extend(p14, t[15], t[11]);
    lemma_has_line_extend(p15, t[16], t[11]);
    lemma_has_line_extend(p16, t[17], t[11]);
    lemma_line_at_end(p11, t[12]);
    lemma_has_line_extend(p12, t[13], t[12]);
    lemma_has_line_extend(p13, t[14], t[12]);
    lemma_has_line_extend(p14, t[15], t[12]);
    lemma_has_line_extend(p15, t[16], t[12]);
    lemma_has_line_extend(p16, t[17], t[12]);
    lemma_line_at_end(p12, t[13]);
    lemma_has_line_extend(p13, t[14], t[13]);
    lemma_has_line_extend(p14, t[15], t[13]);
    lemma_has_line_extend(p15, t[16], t[13]);
    lemma_has_line_extend(p16, t[17], t[13]);
    lemma_line_at_end(p14, t[15]);
    lemma_has_line_extend(p15, t[16], t[15]);
    lemma_has_line_extend(p16, t[17], t[15]);
    lemma_line_at_end(p15, t[16]);
    lemma_has_line_extend(p16, t[17], t[16]);
}

} // verus!
