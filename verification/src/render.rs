//! The generated listing: a banner with the version, then the four buckets.

use vstd::prelude::*;
use vstd::utf8::encode_utf8;
use crate::classify::{Classification, ClassificationView};
use crate::status_report::text_views;

verus! {

/// The texts of a list, with `separator` between each two neighbours.
pub open spec fn joined(texts: Seq<Seq<char>>, separator: Seq<char>) -> Seq<char>
    decreases texts.len(),
{
    if texts.len() == 0 {
        Seq::empty()
    } else if texts.len() == 1 {
        texts[0]
    } else {
        joined(texts.drop_last(), separator) + separator + texts.last()
    }
}

/// What stands between two labels of a group: the comma that ends the
/// first, then a new line and the indentation of the second.
pub open spec fn label_separator() -> Seq<char> {
    ",\n    "@
}

/// The labels of one group. In every group but the last of the listing, a
/// comma follows the last label too, so that the next group can follow.
pub open spec fn group_text(labels: Seq<Seq<char>>, last_group: bool) -> Seq<char> {
    if labels.len() == 0 || last_group {
        joined(labels, label_separator())
    } else {
        joined(labels, label_separator()) + ","@
    }
}

/// The listing for a version and a classification.
pub open spec fn artifact_text(version: Seq<char>, c: ClassificationView) -> Seq<char> {
    "\n// List of agave supported feature flags.\n// As of `"@ + version
        + "`.\nstatic AGAVE_FEATURES: &[Pubkey] = &[\n    // Inactive on all clusters.\n    "@
        + group_text(c.inactive, false) + "\n    // Active on testnet.\n    "@ + group_text(
        c.active_testnet,
        false,
    ) + "\n    // Active on devnet.\n    "@ + group_text(c.active_devnet, false)
        + "\n    // Active on mainnet-beta.\n    "@ + group_text(c.active_mainnet, true)
        + "\n];\n"@
}

/// Appends the labels of one group to `out`.
fn push_group(out: &mut String, labels: &Vec<String>, last_group: bool)
    ensures
        final(out)@ == old(out)@ + group_text(text_views(labels@), last_group),
{
    let ghost start = out@;
    let ghost texts = text_views(labels@);
    let n = labels.len();
    let mut i: usize = 0;
    while i < n
        invariant
            i <= n,
            n == labels@.len(),
            texts == text_views(labels@),
            out@ == start + joined(texts.take(i as int), label_separator()),
        decreases n - i,
    {
        proof {
            assert(texts.take(i + 1).drop_last() =~= texts.take(i as int));
            assert(texts.take(i + 1).last() == labels@[i as int]@);
        }
        if i > 0 {
            out.append(",\n    ");
        }
        out.append(labels[i].as_str());
        assert(out@ =~= start + joined(texts.take(i + 1), label_separator()));
        i += 1;
    }
    assert(texts.take(n as int) =~= texts);
    if n > 0 && !last_group {
        out.append(",");
        assert(out@ =~= start + group_text(texts, last_group));
    }
}

/// Writes the listing: the banner with `agave_version`, then one group for
/// each bucket, each under its comment.
pub fn render(agave_version: &str, classification: &Classification) -> (text: String)
    ensures
        text@ == artifact_text(agave_version@, classification@),
{
    let mut out = String::new();
    out.append("\n// List of agave supported feature flags.\n// As of `");
    out.append(agave_version);
    out.append(
        "`.\nstatic AGAVE_FEATURES: &[Pubkey] = &[\n    // Inactive on all clusters.\n    ",
    );
    push_group(&mut out, &classification.inactive, false);
    out.append("\n    // Active on testnet.\n    ");
    push_group(&mut out, &classification.active_testnet, false);
    out.append("\n    // Active on devnet.\n    ");
    push_group(&mut out, &classification.active_devnet, false);
    out.append("\n    // Active on mainnet-beta.\n    ");
    push_group(&mut out, &classification.active_mainnet, true);
    out.append("\n];\n");
    assert(out@ =~= artifact_text(agave_version@, classification@));
    out
}

/// Rendering is a function of the version and the classification: two
/// listings for the same two hold the same characters, and so the same
/// bytes.
pub proof fn lemma_render_repeatable(
    version: Seq<char>,
    classification: ClassificationView,
    first: String,
    second: String,
)
    requires
        first@ == artifact_text(version, classification),
        second@ == artifact_text(version, classification),
    ensures
        first@ == second@,
        encode_utf8(first@) == encode_utf8(second@),
{
}

} // verus!
