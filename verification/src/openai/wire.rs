//! The Responses API values the adapter reads and writes, as plain data.
use vstd::prelude::*;

use crate::domain::{FinishReason, TokenUsage};
use crate::text::{opt_view, str_is};

verus! {

/// Token counts of a finished response.
#[derive(Clone, Copy, Debug, PartialEq, Eq, Structural)]
pub struct ResponseUsage {
    pub input_tokens: u64,
    pub output_tokens: u64,
}

/// Why a response stopped early.
#[derive(Clone, Debug, PartialEq, Eq)]
pub struct IncompleteDetails {
    pub reason: Option<String>,
}

/// An error object reported by the provider.
#[derive(Clone, Debug, PartialEq, Eq)]
pub struct ResponseError {
    pub code: Option<String>,
    pub message: Option<String>,
}

/// One part of a reasoning summary: its `type` and `text`, where they are strings.
#[derive(Clone, Debug, PartialEq, Eq)]
pub struct SummaryPart {
    pub part_type: Option<String>,
    pub text: Option<String>,
}

/// The fields the adapter reads of an output item, where they are strings;
/// `call_id_present` tells whether the item has a `call_id` field at all, whatever its
/// value, and `raw` is the item's JSON text.
#[derive(Clone, Debug, PartialEq, Eq)]
pub struct OutputItem {
    pub item_type: Option<String>,
    pub id: Option<String>,
    pub phase: Option<String>,
    pub call_id: Option<String>,
    pub call_id_present: bool,
    pub name: Option<String>,
    pub arguments: Option<String>,
    pub summary: Vec<SummaryPart>,
    pub raw: String,
}

/// The `response` object of a completion event.
#[derive(Clone, Debug, PartialEq, Eq)]
pub struct ResponsePayload {
    pub usage: Option<ResponseUsage>,
    pub incomplete_details: Option<IncompleteDetails>,
    pub error: Option<ResponseError>,
    pub output: Vec<OutputItem>,
}

/// One decoded server-sent event of the Responses stream.
#[derive(Clone, Debug, PartialEq, Eq)]
pub struct StreamEvent {
    pub kind: String,
    pub delta: Option<String>,
    pub text: Option<String>,
    pub arguments: Option<String>,
    pub item_id: Option<String>,
    pub output_index: Option<u64>,
    pub summary_index: Option<u64>,
    pub phase: Option<String>,
    pub part: Option<SummaryPart>,
    pub item: Option<OutputItem>,
    pub response: Option<ResponsePayload>,
    pub error: Option<ResponseError>,
}

/// A finish reason with its text as a plain sequence.
pub enum FinishView {
    Stop,
    Length,
    ContentFilter,
    Other(Seq<char>),
}

pub open spec fn finish_view(reason: FinishReason) -> FinishView {
    match reason {
        FinishReason::Stop => FinishView::Stop,
        FinishReason::Length => FinishView::Length,
        FinishReason::ContentFilter => FinishView::ContentFilter,
        FinishReason::Other(s) => FinishView::Other(s@),
    }
}

/// The reason a response ended: its incomplete reason, where it reports one.
pub open spec fn finish_reason_spec(response: ResponsePayload) -> FinishView {
    match response.incomplete_details {
        Some(details) => match details.reason {
            Some(reason) => if reason@ == "max_output_tokens"@ {
                FinishView::Length
            } else if reason@ == "content_filter"@ {
                FinishView::ContentFilter
            } else {
                FinishView::Other(reason@)
            },
            None => FinishView::Stop,
        },
        None => FinishView::Stop,
    }
}

/// Maps a response's incomplete reason to a finish reason.
pub fn parse_finish_reason(response: &ResponsePayload) -> (reason: FinishReason)
    ensures
        finish_view(reason) == finish_reason_spec(*response),
{
    match &response.incomplete_details {
        Some(details) => match &details.reason {
            Some(reason) => {
                if str_is(reason.as_str(), "max_output_tokens") {
                    FinishReason::Length
                } else if str_is(reason.as_str(), "content_filter") {
                    FinishReason::ContentFilter
                } else {
                    FinishReason::Other(reason.clone())
                }
            },
            None => FinishReason::Stop,
        },
        None => FinishReason::Stop,
    }
}

/// The usage of a response, when it reports one.
pub fn usage(response: &ResponsePayload) -> (usage: Option<TokenUsage>)
    ensures
        usage == match response.usage {
            Some(u) => Some(TokenUsage { input_tokens: u.input_tokens, output_tokens: u.output_tokens }),
            None => None::<TokenUsage>,
        },
{
    match &response.usage {
        Some(u) => Some(TokenUsage { input_tokens: u.input_tokens, output_tokens: u.output_tokens }),
        None => None,
    }
}

/// A summary part of a reasoning item: the item's id, the part's index, its text.
pub type SummaryRef = (Seq<char>, nat, Seq<char>);

/// The `summary_text` parts of one reasoning item's summary, in order.
pub open spec fn item_summary_parts(id: Seq<char>, summary: Seq<SummaryPart>) -> Seq<SummaryRef>
    decreases summary.len(),
{
    if summary.len() == 0 {
        Seq::empty()
    } else {
        let prev = item_summary_parts(id, summary.drop_last());
        let part = summary.last();
        if opt_view(part.part_type) == Some("summary_text"@) && part.text is Some {
            prev.push((id, (summary.len() - 1) as nat, part.text->0@))
        } else {
            prev
        }
    }
}

/// The summary parts of every reasoning item (one with a `reasoning` type and an id), in order.
pub open spec fn summary_parts_spec(items: Seq<OutputItem>) -> Seq<SummaryRef>
    decreases items.len(),
{
    if items.len() == 0 {
        Seq::empty()
    } else {
        let item = items.last();
        summary_parts_spec(items.drop_last()) + if opt_view(item.item_type) == Some("reasoning"@)
            && item.id is Some {
            item_summary_parts(item.id->0@, item.summary@)
        } else {
            Seq::empty()
        }
    }
}

pub open spec fn summary_refs_view(v: Seq<(String, u64, String)>) -> Seq<SummaryRef> {
    v.map_values(|r: (String, u64, String)| (r.0@, r.1 as nat, r.2@))
}

/// The readable reasoning summaries of a response's output, as (item id, index, text);
/// encrypted content and parts of other types are skipped.
pub fn reasoning_summary_parts(output: &Vec<OutputItem>) -> (parts: Vec<(String, u64, String)>)
    ensures
        summary_refs_view(parts@) == summary_parts_spec(output@),
{
    let mut parts: Vec<(String, u64, String)> = Vec::new();
    let mut i: usize = 0;
    while i < output.len()
        invariant
            i <= output@.len(),
            summary_refs_view(parts@) == summary_parts_spec(output@.take(i as int)),
        decreases output.len() - i,
    {
        let item = &output[i];
        let ghost before = parts@;
        proof {
            assert(output@.take(i + 1).drop_last() =~= output@.take(i as int));
        }
        let is_reasoning = match &item.item_type {
            Some(t) => str_is(t.as_str(), "reasoning"),
            None => false,
        };
        if is_reasoning {
            match &item.id {
                Some(id) => {
                    let mut j: usize = 0;
                    while j < item.summary.len()
                        invariant
                            j <= item.summary@.len(),
                            summary_refs_view(parts@) == summary_refs_view(before) + item_summary_parts(
                                id@,
                                item.summary@.take(j as int),
                            ),
                        decreases item.summary.len() - j,
                    {
                        proof {
                            assert(item.summary@.take(j + 1).drop_last() =~= item.summary@.take(j as int));
                            assert(item.summary@.take(j + 1).last() == item.summary@[j as int]);
                        }
                        let part = &item.summary[j];
                        let is_text = match &part.part_type {
                            Some(t) => str_is(t.as_str(), "summary_text"),
                            None => false,
                        };
                        if is_text {
                            match &part.text {
                                Some(text) => {
                                    let ghost prior = parts@;
                                    parts.push((id.clone(), j as u64, text.clone()));
                                    proof {
                                        assert(summary_refs_view(parts@) =~= summary_refs_view(prior).push(
                                            (id@, j as nat, text@),
                                        ));
                                        let prev = item_summary_parts(id@, item.summary@.take(j as int));
                                        assert(item_summary_parts(id@, item.summary@.take(j + 1)) == prev.push(
                                            (id@, j as nat, text@),
                                        ));
                                        assert(summary_refs_view(parts@) =~= summary_refs_view(before)
                                            + item_summary_parts(id@, item.summary@.take(j + 1)));
                                    }
                                },
                                None => {},
                            }
                        }
                        j += 1;
                    }
                    assert(item.summary@.take(item.summary@.len() as int) =~= item.summary@);
                },
                None => {},
            }
        }
        proof {
            assert(summary_refs_view(parts@) =~= summary_parts_spec(output@.take(i + 1)));
        }
        i += 1;
    }
    assert(output@.take(output@.len() as int) =~= output@);
    parts
}

} // verus!
