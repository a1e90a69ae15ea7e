//! Report shapes of the API that the library fills.
use vstd::prelude::*;

use crate::notification::types::NotificationRuntimeSnapshot;
use crate::realtime::runtime::RealtimeRuntimeSnapshot;
use crate::storage::writer::StorageWriterSnapshot;

verus! {

/// The runtime health report: writer, realtime runtime and notification
/// runtime, each when running.
#[derive(Debug)]
pub struct RuntimeHealthDto {
    pub storage_writer: Option<StorageWriterSnapshot>,
    pub realtime: Option<RealtimeRuntimeSnapshot>,
    pub notification: Option<NotificationRuntimeSnapshot>,
}

/// What a dry-run card said.
#[derive(Debug, Clone, PartialEq, Eq)]
pub struct FeishuDryRunCardSummaryDto {
    pub title: String,
    pub reason: String,
}

} // verus!
