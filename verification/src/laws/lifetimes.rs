use vstd::prelude::*;
use crate::history::{refusal, step, Call};
use crate::storage::{lifetime, HostView, INSTANCE_LIFETIME};
use crate::store::ValueView;
use crate::types::DataKeyView;

verus! {

/// Every write gives the entry its full lifetime, counted from the ledger
/// of the write; the value can then be read, and no other entry has changed.
pub proof fn lemma_write_renews_lifetime(s: HostView, key: DataKeyView, value: ValueView)
    ensures
        s.set(key, value).persistent[key].live_until == s.ledger.sequence + lifetime(key),
        s.set(key, value).get(key) == Some(value),
        forall|other: DataKeyView|
            other != key ==> #[trigger] s.set(key, value).get(other) == s.get(other),
{
}

/// An entry whose lifetime has run out reads as if it had never been written.
pub proof fn lemma_expired_entry_reads_absent(s: HostView, key: DataKeyView)
    requires
        s.persistent.dom().contains(key),
        s.persistent[key].live_until < s.ledger.sequence,
    ensures
        !s.has(key),
        s.get(key).is_none(),
{
}

/// Every increment of the claim counter gives the registry's instance its
/// full lifetime, counted from the ledger of the increment.
pub proof fn lemma_counting_renews_instance(s: HostView)
    ensures
        s.increment_next_claim_id().instance_live_until == s.ledger.sequence + INSTANCE_LIFETIME,
{
}

/// A call that is refused changes nothing.
pub proof fn lemma_refused_call_changes_nothing(s: HostView, call: Call)
    requires
        refusal(s, call).is_some(),
    ensures
        step(s, call) == s,
{
}

} // verus!
