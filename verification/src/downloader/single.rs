//! Decisions of the single-stream downloader: resuming from a partial file and reporting.

use vstd::prelude::*;
use crate::downloader::rate::{
    elapsed_millis, elapsed_ms_u64, eta_secs, eta_spec, rate_per_sec, rate_spec, remaining_bytes,
    sat_sub,
};
use crate::text::{decimal, push_decimal, push_str, string_of};

verus! {

/// How a single-stream download begins.
#[derive(Debug, Clone, Copy, PartialEq, Eq, Structural)]
pub enum SingleStart {
    /// The partial file already holds every byte: only rename it.
    AlreadyComplete,
    /// Request the file, from this offset when there is one.
    Fetch(Option<u64>),
}

/// A partial file as long as a known, non-zero size is complete; otherwise fetch, resuming at
/// the partial file's length when it has any bytes.
pub fn single_start(existing: u64, total_size: u64) -> (r: SingleStart)
    ensures
        r == (if existing >= total_size && total_size > 0 {
            SingleStart::AlreadyComplete
        } else if existing > 0 {
            SingleStart::Fetch(Some(existing))
        } else {
            SingleStart::Fetch(None)
        }),
{
    if existing >= total_size && total_size > 0 {
        SingleStart::AlreadyComplete
    } else if existing > 0 {
        SingleStart::Fetch(Some(existing))
    } else {
        SingleStart::Fetch(None)
    }
}

/// The open-ended `Range` header `bytes=<from>-`.
pub fn open_range_header(from: u64) -> (r: String)
    ensures
        r@ == "bytes="@ + decimal(from as nat) + "-"@,
{
    let mut v: Vec<char> = Vec::new();
    push_str(&mut v, "bytes=");
    push_decimal(&mut v, from as u128);
    push_str(&mut v, "-");
    string_of(&v)
}

/// Where writing starts and what the reports count, once the server has answered.
#[derive(Debug, Clone, Copy, PartialEq, Eq, Structural)]
pub struct StreamLayout {
    /// Offset in the partial file at which the body is written.
    pub seek_to: u64,
    /// Bytes counted as done before the body arrives.
    pub downloaded: u64,
    /// Size the reports announce.
    pub effective_total: u64,
    /// Whether the partial file is recreated empty.
    pub truncate: bool,
}

/// A `206 Partial Content` reply continues the partial file; any other success restarts it.
/// The announced size is the known one, else what the reply's length implies.
pub fn stream_layout(
    partial: bool,
    existing: u64,
    total_size: u64,
    content_length: Option<u64>,
) -> (r: StreamLayout)
    requires
        partial && total_size == 0 ==> existing + (match content_length {
            Some(c) => c as int,
            None => 0int,
        }) <= u64::MAX,
    ensures
        partial ==> r == (StreamLayout {
            seek_to: existing,
            downloaded: existing,
            effective_total: if total_size > 0 {
                total_size
            } else {
                (existing + match content_length { Some(c) => c as int, None => 0int }) as u64
            },
            truncate: false,
        }),
        !partial ==> r == (StreamLayout {
            seek_to: 0,
            downloaded: 0,
            effective_total: if total_size > 0 {
                total_size
            } else {
                match content_length { Some(c) => c, None => 0 }
            },
            truncate: true,
        }),
{
    let cl = match content_length {
        Some(c) => c,
        None => 0,
    };
    if partial {
        let total = if total_size > 0 { total_size } else { existing + cl };
        StreamLayout { seek_to: existing, downloaded: existing, effective_total: total, truncate: false }
    } else {
        let total = if total_size > 0 { total_size } else { cl };
        StreamLayout { seek_to: 0, downloaded: 0, effective_total: total, truncate: true }
    }
}

/// A progress report is due once 400 ms have passed; it gives the speed since the previous
/// report and the seconds left at that speed.
pub fn stream_report(
    downloaded: u64,
    last_bytes: u64,
    elapsed_ms: u128,
    effective_total: u64,
) -> (r: Option<(u64, u64)>)
    ensures
        elapsed_ms_u64(elapsed_ms) < 400 ==> r is None,
        elapsed_ms_u64(elapsed_ms) >= 400 ==> r == Some((
            rate_spec(sat_sub(downloaded as int, last_bytes as int), elapsed_ms_u64(elapsed_ms) as int) as u64,
            eta_spec(
                sat_sub(effective_total as int, downloaded as int),
                rate_spec(sat_sub(downloaded as int, last_bytes as int), elapsed_ms_u64(elapsed_ms) as int),
            ) as u64,
        )),
{
    let elapsed = elapsed_millis(elapsed_ms);
    if elapsed < 400 {
        return None;
    }
    let speed = rate_per_sec(remaining_bytes(downloaded, last_bytes), elapsed);
    let eta = eta_secs(remaining_bytes(effective_total, downloaded), speed);
    Some((speed, eta))
}

} // verus!
