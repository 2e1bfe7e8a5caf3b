//! The lookup orchestrator, as a pair of decision steps.
//!
//! The shell around the library reads the cache file (if any), hands its
//! text to [`start_lookup`], and acts on the step it gets back: a `Hit`
//! carries the finished report and nothing else — no URL, so no network
//! call is made — while a `Miss` carries the request URL to fetch and the
//! recovered in-memory cache. After fetching and decoding, the shell hands
//! the response to [`complete_lookup`] and receives the report to print
//! and the new cache text to persist. A persist failure loses only the
//! durability of the entry: the report is already in hand.

use vstd::prelude::*;
use crate::codec::{cache_rep, parse_cache_spec, read_cache, write_cache};
use crate::numtext::{int_rep, push_dec_i64};
use crate::render::{render, render_spec};
use crate::response::key::KeyResponse;
use crate::roster::{normalize_spec, project_roster, sort_roster};
use crate::store::{append_spec, append_to, lookup_in, lookup_spec};
use crate::summary::{
    cache_view_bounded, summary_view_bounded, RunSummary, RunSummaryView,
};
use vstd::string::StringExecFns;

verus! {

/// The cache a given file content stands for: no file and unparseable
/// content both mean the empty cache.
pub open spec fn effective_cache(content: Option<Seq<char>>) -> Seq<RunSummaryView> {
    match content {
        None => Seq::empty(),
        Some(t) => match parse_cache_spec(t) {
            Some(c) => c,
            None => Seq::empty(),
        },
    }
}

/// Whether a present file content fails to parse and is about to be
/// discarded.
pub open spec fn content_corrupt(content: Option<Seq<char>>) -> bool {
    match content {
        None => false,
        Some(t) => parse_cache_spec(t) is None,
    }
}

pub open spec fn content_view(content: Option<&str>) -> Option<Seq<char>> {
    match content {
        None => None,
        Some(t) => Some(t@),
    }
}

/// The run-details request for one run id, with the fixed season.
pub open spec fn run_details_url_spec(id: int) -> Seq<char> {
    "https://raider.io/api/v1/mythic-plus/run-details?season=season-tww-2&id="@ + int_rep(id)
}

/// Builds the run-details request URL.
pub fn run_details_url(id: i64) -> (url: String)
    ensures
        url@ == run_details_url_spec(id as int),
{
    let mut url = String::from_str(
        "https://raider.io/api/v1/mythic-plus/run-details?season=season-tww-2&id=",
    );
    push_dec_i64(&mut url, id);
    url
}

/// The summary a run-details response condenses to: the scalar fields and
/// the normalized roster.
pub open spec fn summary_of_response(r: KeyResponse) -> RunSummaryView {
    RunSummaryView {
        id: r.keystone_run_id as int,
        num_chests: r.num_chests as int,
        level: r.mythic_level as int,
        dungeon_name: r.dungeon.name@,
        roster: normalize_spec(r.roster@),
    }
}

/// Condenses a fetched response into the cached shape.
pub fn build_summary(resp: KeyResponse) -> (s: RunSummary)
    ensures
        s@ == summary_of_response(resp),
{
    let ghost resp0 = resp;
    let KeyResponse { keystone_run_id, mythic_level, num_chests, dungeon, roster, season: _, status: _ } =
        resp;
    let mut raw = roster;
    sort_roster(&mut raw);
    let entries = project_roster(&raw);
    let s = RunSummary {
        id: keystone_run_id,
        num_chests,
        level: mythic_level,
        dungeon_name: dungeon.name,
        roster: entries,
    };
    proof {
        assert(s@ =~= summary_of_response(resp0));
    }
    s
}

/// The first step of a lookup.
pub enum LookupStep {
    /// The id is cached: the report, and nothing to fetch or write.
    Hit { report: String },
    /// The id is not cached: what to fetch, the cache to merge the fetched
    /// record into, and whether unreadable content is being discarded.
    Miss { url: String, cache: Vec<RunSummary>, cache_was_corrupt: bool },
}

/// Decides a lookup from the cache file's content: either the rendered
/// report of the cached record, or the request to make. Missing and
/// unreadable content are both treated as an empty cache, never an error.
pub fn start_lookup(content: Option<&str>, id: i64) -> (step: LookupStep)
    ensures
        ({
            let cv = effective_cache(content_view(content));
            match step {
                LookupStep::Hit { report } => lookup_spec(cv, id as int) is Some && report@
                    == render_spec(lookup_spec(cv, id as int).unwrap()),
                LookupStep::Miss { url, cache, cache_was_corrupt } => {
                    &&& lookup_spec(cv, id as int) is None
                    &&& cache.deep_view() == cv
                    &&& url@ == run_details_url_spec(id as int)
                    &&& cache_was_corrupt == content_corrupt(content_view(content))
                },
            }
        }),
{
    let ghost cv = effective_cache(content_view(content));
    let mut corrupt = false;
    let cache: Vec<RunSummary> = match content {
        None => {
            let empty: Vec<RunSummary> = Vec::new();
            proof {
                assert(empty.deep_view() =~= cv);
            }
            empty
        },
        Some(t) => match read_cache(t) {
            Some(c) => c,
            None => {
                corrupt = true;
                let empty: Vec<RunSummary> = Vec::new();
                proof {
                    assert(empty.deep_view() =~= cv);
                }
                empty
            },
        },
    };
    match lookup_in(&cache, id) {
        Some(found) => LookupStep::Hit { report: render(&found) },
        None => LookupStep::Miss { url: run_details_url(id), cache, cache_was_corrupt: corrupt },
    }
}

/// What completing a miss yields.
pub struct LookupOutcome {
    /// The report to print.
    pub report: String,
    /// The new cache file content to persist.
    pub new_content: String,
}

/// Completes a miss once the response is fetched: normalizes the roster,
/// merges the record into the cache, and renders the report. The report
/// depends only on the response, not on whether persisting will succeed.
pub fn complete_lookup(cache: Vec<RunSummary>, resp: KeyResponse) -> (outcome: LookupOutcome)
    ensures
        outcome.report@ == render_spec(summary_of_response(resp)),
        outcome.new_content@ == cache_rep(
            append_spec(cache.deep_view(), summary_of_response(resp)),
        ),
{
    let mut merged = cache;
    let summary = build_summary(resp);
    let report = render(&summary);
    append_to(&mut merged, summary);
    let new_content = write_cache(&merged);
    LookupOutcome { report, new_content }
}

/// A second lookup of the same id, against the cache text written when the
/// first lookup's miss completed, finds the record: the written text
/// parses back to the merged cache, and the lookup yields exactly the
/// summary that was appended — so the second report is identical text to
/// the first, and the hit step carries nothing to fetch.
pub proof fn lemma_second_lookup_hits(c: Seq<RunSummaryView>, s: RunSummaryView)
    requires
        cache_view_bounded(c),
        summary_view_bounded(s),
        c.len() < u64::MAX,
    ensures
        effective_cache(Some(cache_rep(append_spec(c, s)))) == append_spec(c, s),
        lookup_spec(append_spec(c, s), s.id) == Some(s),
        render_spec(lookup_spec(append_spec(c, s), s.id).unwrap()) == render_spec(s),
{
    let c2 = append_spec(c, s);
    crate::store::lemma_first_match_props(c, s.id);
    assert(cache_view_bounded(c2)) by {
        match crate::store::first_match(c, s.id) {
            Some(i) => {
                assert(forall|j: int|
                    0 <= j < c2.len() ==> summary_view_bounded(#[trigger] c2[j]));
            },
            None => {
                assert(forall|j: int|
                    0 <= j < c2.len() ==> summary_view_bounded(#[trigger] c2[j]));
            },
        }
    }
    crate::codec::lemma_cache_round_trip(c2);
    crate::store::lemma_append_then_lookup(c, s);
}

} // verus!
