//! Network-name normalization.
//!
//! Tenant resources may still carry legacy short network names; every
//! comparison and every routing decision first maps those to their canonical
//! form: `mainnet` to `cardano-mainnet`, `preprod` to `cardano-preprod`,
//! `preview` to `cardano-preview`.  All other names pass through unchanged.

use vstd::prelude::*;
use vstd::string::StringExecFns;
use crate::strutil::str_eq;

verus! {

/// The canonical form of a network name.
pub open spec fn normalize_spec(n: Seq<char>) -> Seq<char> {
    if n == "mainnet"@ {
        "cardano-mainnet"@
    } else if n == "preprod"@ {
        "cardano-preprod"@
    } else if n == "preview"@ {
        "cardano-preview"@
    } else {
        n
    }
}

/// Maps a legacy short network name to its canonical form; canonical and
/// unknown names are returned unchanged.
pub fn handle_legacy_networks(network: &str) -> (r: String)
    ensures
        r@ == normalize_spec(network@),
{
    if str_eq(network, "mainnet") {
        String::from_str("cardano-mainnet")
    } else if str_eq(network, "preprod") {
        String::from_str("cardano-preprod")
    } else if str_eq(network, "preview") {
        String::from_str("cardano-preview")
    } else {
        String::from_str(network)
    }
}

/// No canonical long name is itself one of the legacy short names.
proof fn lemma_canonical_not_legacy()
    ensures
        normalize_spec("cardano-mainnet"@) == "cardano-mainnet"@,
        normalize_spec("cardano-preprod"@) == "cardano-preprod"@,
        normalize_spec("cardano-preview"@) == "cardano-preview"@,
{
    reveal_strlit("mainnet");
    reveal_strlit("preprod");
    reveal_strlit("preview");
    reveal_strlit("cardano-mainnet");
    reveal_strlit("cardano-preprod");
    reveal_strlit("cardano-preview");
    assert("cardano-mainnet"@.len() == 15);
    assert("cardano-preprod"@.len() == 15);
    assert("cardano-preview"@.len() == 15);
    assert("mainnet"@.len() == 7);
    assert("preprod"@.len() == 7);
    assert("preview"@.len() == 7);
}

/// Normalization is idempotent: applying it twice gives the same name as
/// applying it once, for every network name.
pub proof fn lemma_normalize_idempotent(n: Seq<char>)
    ensures
        normalize_spec(normalize_spec(n)) == normalize_spec(n),
{
    lemma_canonical_not_legacy();
}

/// The legacy short names map to their canonical long forms.
pub proof fn lemma_normalize_legacy_names()
    ensures
        normalize_spec("mainnet"@) == "cardano-mainnet"@,
        normalize_spec("preprod"@) == "cardano-preprod"@,
        normalize_spec("preview"@) == "cardano-preview"@,
{
    reveal_strlit("mainnet");
    reveal_strlit("preprod");
    reveal_strlit("preview");
    assert("preprod"@[0] != "mainnet"@[0]);
    assert("preview"@[0] != "mainnet"@[0]);
    assert("preview"@[4] != "preprod"@[4]);
}

} // verus!
