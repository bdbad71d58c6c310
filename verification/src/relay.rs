//! Relay-side logic: classifying one relay's delivered-payload records,
//! extracting a relay's identity from its endpoint, collecting the relays
//! that answered with data, and the cross-relay consistency check.

use vstd::prelude::*;

verus! {

/// One delivered-payload record as a relay reports it. Numeric-looking
/// fields are decimal strings, preserving full precision.
pub struct DeliveredPayloadsResponse {
    pub slot: String,
    pub parent_hash: String,
    pub block_hash: String,
    pub builder_pubkey: String,
    pub proposer_pubkey: String,
    pub proposer_fee_recipient: String,
    pub gas_limit: String,
    pub gas_used: String,
    pub value: String,
    pub block_number: String,
    pub num_tx: String,
}

/// A delivered payload tagged with the identity (hostname) of the relay
/// that reported it.
pub struct RelayResponse {
    pub delivered_payloads_response: DeliveredPayloadsResponse,
    pub relay: String,
}

/// `i` is the first occurrence of `c` in `s` at or after `from`.
pub open spec fn first_occurrence(s: Seq<char>, c: char, from: int, i: int) -> bool {
    &&& from <= i < s.len()
    &&& s[i] == c
    &&& forall|j: int| from <= j < i ==> s[j] != c
}

/// The first index of `c` in `s` at or after `from`, or the length of `s`
/// when `c` does not occur there.
fn find_char_from(s: &str, c: char, from: usize) -> (r: usize)
    requires
        from <= s@.len(),
    ensures
        from <= r <= s@.len(),
        r < s@.len() ==> first_occurrence(s@, c, from as int, r as int),
        r == s@.len() ==> forall|j: int| from <= j < s@.len() ==> s@[j] != c,
{
    let n = s.unicode_len();
    let mut i = from;
    while i < n
        invariant
            from <= i <= n,
            n == s@.len(),
            forall|j: int| from <= j < i ==> s@[j] != c,
        decreases n - i,
    {
        if s.get_char(i) == c {
            return i;
        }
        i = i + 1;
    }
    n
}

/// The relay's identity within its endpoint: the host portion between the
/// first `@` (which ends the embedded credential prefix) and the next `@`
/// or the end of the string. `None` when the endpoint has no `@`.
pub fn relay_host_of(url: &str) -> (r: Option<String>)
    ensures
        r is None <==> (forall|j: int| 0 <= j < url@.len() ==> url@[j] != '@'),
        r matches Some(h) ==> exists|i: int, k: int|
            {
                &&& #[trigger] first_occurrence(url@, '@', 0, i)
                &&& #[trigger] url@.subrange(i + 1, k) == h@
                &&& i < k <= url@.len()
                &&& (k < url@.len() ==> first_occurrence(url@, '@', i + 1, k))
                &&& (k == url@.len() ==> forall|j: int| i < j < url@.len() ==> url@[j] != '@')
            },
{
    let n = url.unicode_len();
    let i = find_char_from(url, '@', 0);
    if i == n {
        return None;
    }
    let k = find_char_from(url, '@', i + 1);
    let piece = url.substring_char(i + 1, k);
    let h = String::from_str(piece);
    proof {
        assert(first_occurrence(url@, '@', 0, i as int));
        assert(h@ == url@.subrange(i as int + 1, k as int));
    }
    Some(h)
}

/// What the relay client concludes from one successful query: exactly one
/// record is usable; zero records mean the relay delivered nothing for the
/// block, and more than one is ambiguous and contributes nothing.
pub fn classify_delivered_payloads(records: Vec<DeliveredPayloadsResponse>, relay: String) -> (r:
    Option<RelayResponse>)
    ensures
        records@.len() == 1 ==> (r matches Some(x) && x.delivered_payloads_response == records@[0]
            && x.relay == relay),
        records@.len() != 1 ==> r is None,
{
    let mut records = records;
    if records.len() == 1 {
        let first = records.remove(0);
        Some(RelayResponse { delivered_payloads_response: first, relay })
    } else {
        None
    }
}

/// What one attempt against a relay's delivered-payloads endpoint came to.
pub enum RelayFetchEvent {
    /// The request itself failed (connection, timeout).
    TransportError,
    /// The relay answered with a non-success status.
    HttpFailure,
    /// The relay answered successfully with these records.
    Success(Vec<DeliveredPayloadsResponse>),
}

/// What the relay client does next with an attempt's outcome.
pub enum RelayFetchStep {
    /// Try again after the fixed delay; failures are never terminal.
    Retry,
    /// The attempt settled the query: this is the relay's contribution.
    Done(Option<RelayResponse>),
}

/// The relay client's decision for one attempt: transport failures and
/// non-success statuses are retried, a successful answer is classified and
/// terminal, whatever it held.
pub fn relay_fetch_step(event: RelayFetchEvent, relay: String) -> (r: RelayFetchStep)
    ensures
        event matches RelayFetchEvent::TransportError ==> r matches RelayFetchStep::Retry,
        event matches RelayFetchEvent::HttpFailure ==> r matches RelayFetchStep::Retry,
        event matches RelayFetchEvent::Success(records) ==> {
            &&& r matches RelayFetchStep::Done(opt)
            &&& records@.len() == 1 ==> (opt matches Some(x) && x.delivered_payloads_response
                == records@[0] && x.relay == relay)
            &&& records@.len() != 1 ==> opt is None
        },
{
    match event {
        RelayFetchEvent::TransportError => RelayFetchStep::Retry,
        RelayFetchEvent::HttpFailure => RelayFetchStep::Retry,
        RelayFetchEvent::Success(records) => RelayFetchStep::Done(
            classify_delivered_payloads(records, relay),
        ),
    }
}

/// The relay responses among `s`, in order, skipping the relays that
/// contributed nothing.
pub open spec fn somes_of(s: Seq<Option<RelayResponse>>) -> Seq<RelayResponse>
    decreases s.len(),
{
    if s.len() == 0 {
        Seq::<RelayResponse>::empty()
    } else {
        somes_of(s.drop_last()) + (match s.last() {
            Some(x) => seq![x],
            None => Seq::<RelayResponse>::empty(),
        })
    }
}

/// Collects the relays that answered with data, keeping their order.
/// One relay contributing nothing does not disturb the others.
pub fn collect_responses(results: Vec<Option<RelayResponse>>) -> (r: Vec<RelayResponse>)
    ensures
        r@ == somes_of(results@),
{
    let ghost orig = results@;
    let mut rest = results;
    let mut out: Vec<RelayResponse> = Vec::new();
    loop
        invariant
            somes_of(orig) =~= somes_of(rest@) + out@,
        ensures
            rest@.len() == 0,
            somes_of(orig) =~= out@,
        decreases rest@.len(),
    {
        let ghost before = rest@;
        match rest.pop() {
            Some(x) => {
                proof {
                    assert(before.drop_last() =~= rest@);
                }
                match x {
                    Some(v) => {
                        out.insert(0, v);
                    },
                    None => {},
                }
            },
            None => {
                break ;
            },
        }
    }
    proof {
        assert(out@ =~= somes_of(results@));
    }
    out
}

/// All collected relays agree on the reported value.
pub open spec fn spec_values_consistent(s: Seq<RelayResponse>) -> bool {
    forall|i: int|
        0 <= i < s.len() ==> #[trigger] s[i].delivered_payloads_response.value@
            == s[0].delivered_payloads_response.value@
}

/// The cross-relay consistency check: whether every relay that answered
/// reports the same value as the first one. Disagreement is a data-quality
/// signal for the caller to surface, never to discard.
pub fn values_consistent(responses: &Vec<RelayResponse>) -> (r: bool)
    ensures
        r == spec_values_consistent(responses@),
{
    let mut i: usize = 0;
    let n = responses.len();
    while i < n
        invariant
            i <= n,
            n == responses@.len(),
            forall|j: int|
                0 <= j < i ==> #[trigger] responses@[j].delivered_payloads_response.value@
                    == responses@[0].delivered_payloads_response.value@,
        decreases n - i,
    {
        if !(responses[i].delivered_payloads_response.value
            == responses[0].delivered_payloads_response.value) {
            return false;
        }
        i = i + 1;
    }
    true
}

} // verus!
