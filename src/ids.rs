//! Composite path identifiers of the read API: `<chainId>-<entityId>`.

use vstd::prelude::*;
use crate::decimal::{integer_in_range, parse_integer};
use crate::params::ErrorResponse;
use crate::text::push_str;

verus! {

/// Why a composite identifier was rejected.
#[derive(Clone, Copy, Debug, PartialEq, Eq, Structural)]
pub enum IdError {
    /// No `-` separates the two parts.
    Malformed,
    /// The part before the first `-` is not a 32-bit integer.
    InvalidChainId,
    /// The part after the first `-` is not a 64-bit integer.
    InvalidEntityId,
}

/// The text before and after the first `-`, if there is one.
pub open spec fn split_at_first_dash(s: Seq<char>) -> Option<(Seq<char>, Seq<char>)>
    decreases s.len(),
{
    if s.len() == 0 {
        None
    } else if s[0] == '-' {
        Some((Seq::empty(), s.drop_first()))
    } else {
        match split_at_first_dash(s.drop_first()) {
            Some((a, b)) => Some((seq![s[0]] + a, b)),
            None => None,
        }
    }
}

/// The chain id and entity id a composite identifier names, or why it names none.
pub open spec fn composite_id(s: Seq<char>) -> Result<(int, int), IdError> {
    match split_at_first_dash(s) {
        None => Err(IdError::Malformed),
        Some((a, b)) => match integer_in_range(a, i32::MIN as int, i32::MAX as int) {
            None => Err(IdError::InvalidChainId),
            Some(c) => match integer_in_range(b, i64::MIN as int, i64::MAX as int) {
                None => Err(IdError::InvalidEntityId),
                Some(e) => Ok((c, e)),
            },
        },
    }
}

proof fn lemma_split_at(s: Seq<char>, k: int)
    requires
        0 <= k < s.len(),
        s[k] == '-',
        forall|j: int| 0 <= j < k ==> s[j] != '-',
    ensures
        split_at_first_dash(s) == Some((s.take(k), s.skip(k + 1))),
    decreases k,
{
    if k > 0 {
        let t = s.drop_first();
        assert forall|j: int| 0 <= j < k - 1 implies t[j] != '-' by {
            assert(t[j] == s[j + 1]);
        }
        lemma_split_at(t, k - 1);
        assert(seq![s[0]] + t.take(k - 1) =~= s.take(k));
        assert(t.skip(k) =~= s.skip(k + 1));
    } else {
        assert(s.take(0) =~= Seq::<char>::empty());
        assert(s.skip(1) =~= s.drop_first());
    }
}

proof fn lemma_no_dash(s: Seq<char>)
    requires
        forall|j: int| 0 <= j < s.len() ==> s[j] != '-',
    ensures
        split_at_first_dash(s) is None,
    decreases s.len(),
{
    if s.len() > 0 {
        let t = s.drop_first();
        assert forall|j: int| 0 <= j < t.len() implies t[j] != '-' by {
            assert(t[j] == s[j + 1]);
        }
        lemma_no_dash(t);
    }
}

/// Splits a composite identifier at its first `-` and reads the chain id (32
/// bits) before it and the entity id (64 bits) after it, e.g. `143-1` gives
/// `(143, 1)`; `143-1-extra` is rejected because `1-extra` is not an integer.
pub fn parse_composite_id(id: &str) -> (r: Result<(i32, i64), IdError>)
    ensures
        r matches Ok((c, e)) ==> composite_id(id@) == Ok::<(int, int), IdError>((c as int, e as int)),
        r matches Err(err) ==> composite_id(id@) == Err::<(int, int), IdError>(err),
{
    let n = id.unicode_len();
    let mut k: usize = 0;
    while k < n && id.get_char(k) != '-'
        invariant
            k <= n,
            n == id@.len(),
            forall|j: int| 0 <= j < k ==> id@[j] != '-',
        decreases n - k,
    {
        k = k + 1;
    }
    if k == n {
        proof {
            lemma_no_dash(id@);
        }
        return Err(IdError::Malformed);
    }
    proof {
        lemma_split_at(id@, k as int);
    }
    let chain_text = id.substring_char(0, k);
    let entity_text = id.substring_char(k + 1, n);
    assert(chain_text@ =~= id@.take(k as int));
    assert(entity_text@ =~= id@.skip(k + 1));
    let chain = match parse_integer(chain_text, i32::MIN as i128, i32::MAX as i128) {
        Some(c) => c,
        None => return Err(IdError::InvalidChainId),
    };
    let entity = match parse_integer(entity_text, i64::MIN as i128, i64::MAX as i128) {
        Some(e) => e,
        None => return Err(IdError::InvalidEntityId),
    };
    Ok((chain as i32, entity as i64))
}

/// The message of a rejected agent identifier.
pub open spec fn agent_id_message(err: IdError, id: Seq<char>) -> Seq<char> {
    match err {
        IdError::Malformed => "Invalid agent id format '"@ + id + "'. Expected 'chainId-agentId'."@,
        IdError::InvalidChainId => "Invalid chain_id in '"@ + id + "'"@,
        IdError::InvalidEntityId => "Invalid agent_id in '"@ + id + "'"@,
    }
}

/// The message of a rejected marketplace entity identifier.
pub open spec fn entity_id_message(err: IdError, id: Seq<char>) -> Seq<char> {
    match err {
        IdError::Malformed => "Invalid id format '"@ + id + "'. Expected 'chainId-entityId'."@,
        IdError::InvalidChainId => "Invalid chain_id in '"@ + id + "'"@,
        IdError::InvalidEntityId => "Invalid entity_id in '"@ + id + "'"@,
    }
}

fn quoted(prefix: &str, id: &str, suffix: &str) -> (r: String)
    ensures
        r@ == prefix@ + id@ + suffix@,
{
    let mut s = String::new();
    push_str(&mut s, prefix);
    push_str(&mut s, id);
    push_str(&mut s, suffix);
    assert(s@ =~= prefix@ + id@ + suffix@);
    s
}

fn bad_request(message: String) -> (r: ErrorResponse)
    ensures
        r.status == 400,
        r.error@ == "Bad Request"@,
        r.message == message,
{
    ErrorResponse { error: String::from_str("Bad Request"), message, status: 400 }
}

/// Reads an agent path identifier such as `143-1`. A rejected identifier gives
/// a `400 Bad Request` answer whose message names the part that is wrong.
pub fn parse_agent_id(id: &str) -> (r: Result<(i32, i64), ErrorResponse>)
    ensures
        r matches Ok((c, a)) ==> composite_id(id@) == Ok::<(int, int), IdError>((c as int, a as int)),
        r matches Err(e) ==> composite_id(id@) matches Err(err) && e.status == 400 && e.error@
            == "Bad Request"@ && e.message@ == agent_id_message(err, id@),
{
    match parse_composite_id(id) {
        Ok(pair) => Ok(pair),
        Err(IdError::Malformed) => Err(bad_request(quoted("Invalid agent id format '", id, "'. Expected 'chainId-agentId'."))),
        Err(IdError::InvalidChainId) => Err(bad_request(quoted("Invalid chain_id in '", id, "'"))),
        Err(IdError::InvalidEntityId) => Err(bad_request(quoted("Invalid agent_id in '", id, "'"))),
    }
}

/// Reads a marketplace entity path identifier such as `143-9`, answering a
/// rejected one as `parse_agent_id` does, in the marketplace's own words.
pub fn parse_id(id: &str) -> (r: Result<(i32, i64), ErrorResponse>)
    ensures
        r matches Ok((c, a)) ==> composite_id(id@) == Ok::<(int, int), IdError>((c as int, a as int)),
        r matches Err(e) ==> composite_id(id@) matches Err(err) && e.status == 400 && e.error@
            == "Bad Request"@ && e.message@ == entity_id_message(err, id@),
{
    match parse_composite_id(id) {
        Ok(pair) => Ok(pair),
        Err(IdError::Malformed) => Err(bad_request(quoted("Invalid id format '", id, "'. Expected 'chainId-entityId'."))),
        Err(IdError::InvalidChainId) => Err(bad_request(quoted("Invalid chain_id in '", id, "'"))),
        Err(IdError::InvalidEntityId) => Err(bad_request(quoted("Invalid entity_id in '", id, "'"))),
    }
}

} // verus!
