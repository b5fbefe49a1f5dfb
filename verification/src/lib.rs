//! Call control for a SIP back-to-back user agent that sits between a carrier
//! network (NGN) and local extensions.

pub mod bridge;
pub mod browser;
pub mod counts;
pub mod dtmf;
pub mod fork;
pub mod ids;
pub mod ngn_inbound;
pub mod outbound_bridge;
pub mod pwa;
pub mod rate_limiter;
pub mod registry;
pub mod relay;
pub mod response;
pub mod sdp;
pub mod send_error;
pub mod sip;
pub mod table;
pub mod text;
pub mod time;
pub mod uas;
pub mod uri;
pub mod webrtc_leg;
