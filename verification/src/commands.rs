//! The commands a user gives, and the decisions the terminal takes on them
//! before any request is sent.
use vstd::prelude::*;
use crate::chains::{ChainFactory, ChainKind, lowercase, spec_chain_named};
use crate::json::Json;
use crate::results::is_unresolved_name;
use crate::text::spec_ends_with;

verus! {

/// What to do on one chain.
#[derive(Debug, Clone, PartialEq, Eq)]
pub enum ChainCommand {
    /// Call an RPC method, with parameters given as JSON text.
    Call { method: String, params: Option<String> },
    /// Show the balance of an address.
    Balance { address: String },
    /// Inspect an object or account.
    Query { id: String },
}

/// Profile management.
#[derive(Debug, Clone, PartialEq, Eq)]
pub enum ProfileAction {
    Add,
    List,
    Remove { name: String },
}

/// Wallet management.
#[derive(Debug, Clone, Copy, PartialEq, Eq, Structural)]
pub enum WalletAction {
    Import,
    List,
    New,
}

/// Administrative commands.
#[derive(Debug, Clone, Copy, PartialEq, Eq, Structural)]
pub enum DbAction {
    /// List every registered user.
    ListUsers,
}

/// How an admin endpoint's HTTP status is answered.
#[derive(Debug, Clone, Copy, PartialEq, Eq, Structural)]
pub enum AdminError {
    /// 401: the session ended; log in again.
    SessionExpired,
    /// 403: the account is no administrator.
    AdminRequired,
    /// Any other status that is no success.
    Failed(u16),
}

/// The message for an admin endpoint's status, `None` for a success (200 to 299).
pub open spec fn spec_admin_error(status: u16) -> Option<AdminError> {
    if status == 401 {
        Some(AdminError::SessionExpired)
    } else if status == 403 {
        Some(AdminError::AdminRequired)
    } else if 200 <= status <= 299 {
        None
    } else {
        Some(AdminError::Failed(status))
    }
}

pub fn admin_error(status: u16) -> (r: Option<AdminError>)
    ensures
        r == spec_admin_error(status),
{
    if status == 401 {
        Some(AdminError::SessionExpired)
    } else if status == 403 {
        Some(AdminError::AdminRequired)
    } else if 200 <= status && status <= 299 {
        None
    } else {
        Some(AdminError::Failed(status))
    }
}

/// The outcome of switching the default chain.
#[derive(Debug, PartialEq, Eq)]
pub enum SwitchOutcome {
    /// The name, lower-cased, is a listed chain name: persist it.
    Switched(String),
    /// No listed chain has this name; the closest one is suggested when close enough.
    Unknown { suggestion: Option<&'static str> },
}

/// Whether a lower-cased name is one of the listed chain names (aliases
/// such as `eth` are no default chain).
pub open spec fn spec_is_listed(lower: Seq<char>) -> bool {
    exists|i: int| 0 <= i < 5 && lower == crate::chains::spec_chain_names()[i]
}

/// Decides a switch of the default chain: a listed name in any letter case
/// is switched to (lower-cased), anything else is refused with a suggestion.
pub fn switch_chain(chain_name: &str) -> (r: SwitchOutcome)
    ensures
        spec_is_listed(lowercase(chain_name@)) ==> (r matches SwitchOutcome::Switched(s) && s@
            == lowercase(chain_name@)),
        !spec_is_listed(lowercase(chain_name@)) ==> (r matches SwitchOutcome::Unknown { suggestion } && (
        suggestion is None <==> (forall|i: int|
            0 <= i < 5 ==> #[trigger] crate::chains::spec_chain_scores(chain_name@)[i]
                <= crate::chains::SUGGESTION_THRESHOLD_BITS)) && (suggestion matches Some(name)
            ==> exists|i: int|
            crate::chains::spec_is_best(crate::chains::spec_chain_scores(chain_name@), i) && name@
                == crate::chains::spec_chain_names()[i])),
{
    let lower = crate::chains::lowercase_of(chain_name);
    let names = ChainFactory::list_chains();
    let mut i: usize = 0;
    while i < names.len()
        invariant
            i <= 5,
            names@.len() == 5,
            forall|k: int| 0 <= k < 5 ==> #[trigger] names@[k]@ == crate::chains::spec_chain_names()[k],
            lower@ == lowercase(chain_name@),
            forall|k: int| 0 <= k < i ==> lower@ != crate::chains::spec_chain_names()[k],
        decreases 5 - i,
    {
        if crate::json::str_eq(lower.as_str(), names[i]) {
            return SwitchOutcome::Switched(lower);
        }
        i = i + 1;
    }
    SwitchOutcome::Unknown { suggestion: ChainFactory::suggest_chain(chain_name) }
}

/// The address a balance query goes to, and whether to warn that a name
/// was given that no resolver turned into an address.
#[derive(Debug, PartialEq, Eq)]
pub struct QueriedAddress {
    pub address: String,
    pub warn_unresolved: bool,
}

/// The resolved address when the chain resolved the input, else the raw
/// input, with a warning when that looks like a `.sui` or `.eth` name.
pub fn queried_address(resolved: Option<String>, raw: String) -> (r: QueriedAddress)
    ensures
        resolved matches Some(a) ==> r.address@ == a@ && !r.warn_unresolved,
        resolved is None ==> r.address@ == raw@ && r.warn_unresolved == (spec_ends_with(
            raw@,
            ".sui"@,
        ) || spec_ends_with(raw@, ".eth"@)),
{
    match resolved {
        Some(a) => QueriedAddress { address: a, warn_unresolved: false },
        None => {
            let warn = is_unresolved_name(raw.as_str());
            QueriedAddress { address: raw, warn_unresolved: warn }
        },
    }
}

/// The parameters of a raw call: those given, else an empty array.
pub fn call_params(given: Option<Json>) -> (r: Json)
    ensures
        given matches Some(p) ==> r == p,
        given is None ==> (r matches Json::Array(a) && a@.len() == 0),
{
    match given {
        Some(p) => p,
        None => Json::Array(Vec::new()),
    }
}

/// Every listed name selects a chain, so a chain switched to can be used.
pub proof fn law_switched_chain_is_usable(lower: Seq<char>)
    requires
        spec_is_listed(lower),
    ensures
        spec_chain_named(lower) is Some,
{
    let i = choose|i: int| 0 <= i < 5 && lower == crate::chains::spec_chain_names()[i];
    if i == 0 {
        crate::chains::law_listed_names_select_distinct_chains(0, 1);
    } else {
        crate::chains::law_listed_names_select_distinct_chains(i, 0);
    }
}

} // verus!
