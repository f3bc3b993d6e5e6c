use vstd::prelude::*;
use crate::errors::Error;

verus! {

/// The status text with which the proving service reports a finished sub-job.
pub open spec fn completed_marker() -> Seq<char> {
    "COMPLETED"@
}

/// A prover query is complete iff it has at least one sub-job and every
/// sub-job reports the completion marker. An empty list means "not yet
/// scheduled", which is incomplete.
pub open spec fn jobs_complete(statuses: Seq<Seq<char>>) -> bool {
    &&& statuses.len() > 0
    &&& forall|i: int| 0 <= i < statuses.len() ==> statuses[i] == completed_marker()
}

/// The completion predicate over the sub-job statuses of one query.
pub fn all_jobs_completed(statuses: &Vec<String>) -> (r: bool)
    ensures
        r == jobs_complete(statuses@.map_values(|s: String| s@)),
{
    let ghost texts = statuses@.map_values(|s: String| s@);
    if statuses.len() == 0 {
        return false;
    }
    let marker = String::from_str("COMPLETED");
    let mut i: usize = 0;
    while i < statuses.len()
        invariant
            texts == statuses@.map_values(|s: String| s@),
            marker@ == completed_marker(),
            i <= statuses@.len(),
            forall|k: int| 0 <= k < i ==> texts[k] == completed_marker(),
        decreases statuses@.len() - i,
    {
        if statuses[i] != marker {
            assert(texts[i as int] != completed_marker());
            return false;
        }
        i = i + 1;
    }
    true
}

/// What a status poll of a query found: the service must be alive, and then
/// the query is complete or not.
pub fn query_status(is_alive: bool, statuses: &Vec<String>) -> (r: Result<bool, Error>)
    ensures
        !is_alive ==> r == Err::<bool, Error>(Error::ServerNotAliveError),
        is_alive ==> r == Ok::<bool, Error>(jobs_complete(statuses@.map_values(|s: String| s@))),
{
    if !is_alive {
        return Err(Error::ServerNotAliveError);
    }
    Ok(all_jobs_completed(statuses))
}

/// The layout-bridge program reads its input as `{"proof": <proof>}`.
pub open spec fn bridge_input_text(proof: Seq<char>) -> Seq<char> {
    "{\n\t\"proof\": "@ + proof + "\n}"@
}

/// Wraps a stage-1 proof as the input of the layout-bridge job.
pub fn layout_bridge_input(proof: &str) -> (r: String)
    ensures
        r@ == bridge_input_text(proof@),
{
    let mut input = String::from_str("{\n\t\"proof\": ");
    input.append(proof);
    input.append("\n}");
    input
}

/// Where the proof of a finished query is published.
pub open spec fn proof_url_text(query_id: Seq<char>) -> Seq<char> {
    "https://atlantic-queries.s3.nl-ams.scw.cloud/sharp_queries/query_"@ + query_id
        + "/proof.json"@
}

pub fn proof_url(query_id: &str) -> (r: String)
    ensures
        r@ == proof_url_text(query_id@),
{
    let mut url = String::from_str(
        "https://atlantic-queries.s3.nl-ams.scw.cloud/sharp_queries/query_",
    );
    url.append(query_id);
    url.append("/proof.json");
    url
}

} // verus!
