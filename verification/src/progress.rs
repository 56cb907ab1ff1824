//! One record of the download-progress stream.

use crate::json::{
    json_of, json_text, optional_text_member, optional_u64_member, parse, read_optional_text,
    read_optional_u64, read_text, text_member, text_view, Json,
};
use vstd::prelude::*;

verus! {

/// Progress of a model download, as one JSON object of the pull stream
/// reports it. `completed` and `total` belong to the layer named by `digest`
/// and are read per record.
#[derive(Debug, Clone, PartialEq, Eq)]
pub struct PullProgress {
    pub status: String,
    pub digest: Option<String>,
    pub total: Option<u64>,
    pub completed: Option<u64>,
}

/// What a [`PullProgress`] holds.
pub struct PullProgressView {
    pub status: Seq<char>,
    pub digest: Option<Seq<char>>,
    pub total: Option<u64>,
    pub completed: Option<u64>,
}

impl View for PullProgress {
    type V = PullProgressView;

    open spec fn view(&self) -> PullProgressView {
        PullProgressView {
            status: self.status@,
            digest: text_view(self.digest),
            total: self.total,
            completed: self.completed,
        }
    }
}

/// The views of a run of records, in order.
pub open spec fn progress_views(records: Seq<PullProgress>) -> Seq<PullProgressView> {
    records.map_values(|p: PullProgress| p@)
}

/// The record that a JSON document spells: an object with a string `status`
/// and, each optional or `null`, a string `digest` and non-negative integers
/// `total` and `completed`. Other members are ignored.
pub open spec fn progress_of(j: Json) -> Option<PullProgressView> {
    match (
        text_member(j, "status"@),
        optional_text_member(j, "digest"@),
        optional_u64_member(j, "total"@),
        optional_u64_member(j, "completed"@),
    ) {
        (Some(status), Some(digest), Some(total), Some(completed)) => Some(
            PullProgressView { status, digest, total, completed },
        ),
        _ => None,
    }
}

/// The record that the bytes of one frame spell, `None` for a frame that is
/// no JSON or has another shape.
pub open spec fn progress_of_frame(frame: Seq<u8>) -> Option<PullProgressView> {
    match json_text(frame) {
        Some(j) => progress_of(j),
        None => None,
    }
}

/// The view of an optional record.
pub open spec fn optional_progress_view(p: Option<PullProgress>) -> Option<PullProgressView> {
    match p {
        Some(record) => Some(record@),
        None => None,
    }
}

impl PullProgress {
    /// Reads a record out of a parsed document.
    pub fn from_json(v: &serde_json::Value) -> (r: Option<PullProgress>)
        ensures
            optional_progress_view(r) == progress_of(json_of(*v)),
    {
        let status = match read_text(v, "status") {
            Some(s) => s,
            None => {
                return None;
            },
        };
        let digest = match read_optional_text(v, "digest") {
            Some(d) => d,
            None => {
                return None;
            },
        };
        let total = match read_optional_u64(v, "total") {
            Some(t) => t,
            None => {
                return None;
            },
        };
        let completed = match read_optional_u64(v, "completed") {
            Some(c) => c,
            None => {
                return None;
            },
        };
        Some(PullProgress { status, digest, total, completed })
    }

    /// Decodes the bytes of one frame.
    pub fn decode(frame: &[u8]) -> (r: Option<PullProgress>)
        ensures
            optional_progress_view(r) == progress_of_frame(frame@),
    {
        match parse(frame) {
            Some(v) => PullProgress::from_json(&v),
            None => None,
        }
    }
}

} // verus!
