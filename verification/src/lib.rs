//! Management choreography payloads and control kinds: the request / reply
//! and observe-stream payloads exchanged by a management controller and a
//! cluster, their exact wire codecs, and the capability handles of the
//! management control kinds.
pub mod control_kinds;
pub mod observe_stream;
pub mod payload;
pub mod request_reply;
pub mod wire;

pub use payload::{
    LoadBegin, LoadChunk, LoadReport, LoadRequest, MgmtError, Reply, Request, SlotRequest,
    StatsResp, SubscribeReq, TransitionReport,
};
pub use request_reply::{ROLE_CLUSTER, ROLE_CONTROLLER};
