//! The SEMP monitoring responses, as the metric logic reads them: the data of
//! a response is kept as the JSON document it serializes to.

use vstd::prelude::*;
use crate::data::Data;
use crate::json::JsonValue;

verus! {

/// The response to a request for one message VPN.
pub struct MsgVpnResponse {
    /// The message VPN, as JSON.
    pub data: Option<JsonValue>,
}

/// The response to a request for one queue of a message VPN.
pub struct MsgVpnQueueResponse {
    /// The queue, as JSON.
    pub data: Option<JsonValue>,
}

/// The response to a request for the clients of a message VPN.
pub struct MsgVpnClientsResponse {
    /// The clients, each as JSON.
    pub data: Option<Vec<JsonValue>>,
}

impl Data<JsonValue> for MsgVpnResponse {
    open spec fn held(&self) -> Option<JsonValue> {
        self.data
    }

    fn data(&self) -> (r: Option<&JsonValue>) {
        self.data.as_ref()
    }
}

impl Data<JsonValue> for MsgVpnQueueResponse {
    open spec fn held(&self) -> Option<JsonValue> {
        self.data
    }

    fn data(&self) -> (r: Option<&JsonValue>) {
        self.data.as_ref()
    }
}

impl Data<Vec<JsonValue>> for MsgVpnClientsResponse {
    open spec fn held(&self) -> Option<Vec<JsonValue>> {
        self.data
    }

    fn data(&self) -> (r: Option<&Vec<JsonValue>>) {
        self.data.as_ref()
    }
}

} // verus!
