//! The accelerator report.
//!
//! An external tool reports the accelerator as one JSON object with the
//! members `Name`, `Total` and `Used`, the latter two in bytes. Reading the
//! report is best effort: what cannot be read stays empty or zero, and
//! nothing is ever an error.

use crate::json::{json_of, json_text, parse, read_text, read_u64, text_member, u64_member, Json};
use vstd::prelude::*;
use vstd::string::*;
use vstd::utf8::encode_utf8;

verus! {

/// The accelerator: its name and its memory in mebibytes.
#[derive(Debug, Clone, PartialEq, Eq)]
pub struct GpuInfo {
    pub name: String,
    pub total_mb: u64,
    pub used_mb: u64,
}

/// What a [`GpuInfo`] holds.
pub struct GpuInfoView {
    pub name: Seq<char>,
    pub total_mb: u64,
    pub used_mb: u64,
}

impl View for GpuInfo {
    type V = GpuInfoView;

    open spec fn view(&self) -> GpuInfoView {
        GpuInfoView { name: self.name@, total_mb: self.total_mb, used_mb: self.used_mb }
    }
}

/// No accelerator known: an empty name and no memory.
pub open spec fn unknown_gpu() -> GpuInfoView {
    GpuInfoView { name: Seq::empty(), total_mb: 0, used_mb: 0 }
}

/// Whole mebibytes in `bytes`.
pub open spec fn mebibytes(bytes: u64) -> u64 {
    (bytes / 1024 / 1024) as u64
}

/// The memory, in mebibytes, under the member `key`; zero where the member
/// is missing or no integer in the range of `u64`.
pub open spec fn memory_member(j: Json, key: Seq<char>) -> u64 {
    match u64_member(j, key) {
        Some(bytes) => mebibytes(bytes),
        None => 0,
    }
}

/// The accelerator that a report spells.
pub open spec fn gpu_of(j: Json) -> GpuInfoView {
    GpuInfoView {
        name: match text_member(j, "Name"@) {
            Some(name) => name,
            None => Seq::empty(),
        },
        total_mb: memory_member(j, "Total"@),
        used_mb: memory_member(j, "Used"@),
    }
}

/// The accelerator that the text of a report spells; [`unknown_gpu`] where
/// the text is no JSON.
pub open spec fn gpu_of_report(report: Seq<char>) -> GpuInfoView {
    match json_text(encode_utf8(report)) {
        Some(j) => gpu_of(j),
        None => unknown_gpu(),
    }
}

fn read_memory(v: &serde_json::Value, key: &str) -> (r: u64)
    ensures
        r == memory_member(json_of(*v), key@),
{
    match read_u64(v, key) {
        Some(bytes) => bytes / 1024 / 1024,
        None => 0,
    }
}

impl Default for GpuInfo {
    /// No accelerator known.
    fn default() -> (r: GpuInfo)
        ensures
            r@ == unknown_gpu(),
    {
        GpuInfo::unknown()
    }
}

impl GpuInfo {
    /// What is reported where there is no report: on a platform without the
    /// tool, or when the tool failed.
    pub fn unknown() -> (r: GpuInfo)
        ensures
            r@ == unknown_gpu(),
    {
        GpuInfo { name: String::new(), total_mb: 0, used_mb: 0 }
    }

    /// Reads the accelerator out of a parsed report.
    pub fn from_json(v: &serde_json::Value) -> (r: GpuInfo)
        ensures
            r@ == gpu_of(json_of(*v)),
    {
        let name = match read_text(v, "Name") {
            Some(name) => name,
            None => String::new(),
        };
        GpuInfo { name, total_mb: read_memory(v, "Total"), used_mb: read_memory(v, "Used") }
    }

    /// Reads the accelerator out of the text of a report.
    pub fn from_report(report: &str) -> (r: GpuInfo)
        ensures
            r@ == gpu_of_report(report@),
    {
        match parse(report.as_bytes()) {
            Some(v) => GpuInfo::from_json(&v),
            None => GpuInfo::unknown(),
        }
    }
}

} // verus!
