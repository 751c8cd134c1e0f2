//! Payloads of the chart events sent to the front end.
use vstd::prelude::*;

verus! {

/// How the chart axes adapt to the data.
#[derive(Debug, Clone, Copy, PartialEq, Eq)]
pub enum AxisMode {
    AutoExpand,
}

/// Payload of an axis-mode change.
#[derive(Debug, Clone, Copy, PartialEq, Eq)]
pub struct AxisModePayload {
    pub mode: AxisMode,
}

/// Payload asking the front end to open the axis settings.
#[derive(Debug, Clone, Copy, PartialEq, Eq)]
pub struct AxisSettingsOpenPayload {
    pub action: &'static str,
}

} // verus!
