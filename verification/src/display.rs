//! The display side: one TMDS lane, the video timing, the DVI link built
//! from four lanes, and the display's EDID.

pub mod dvi;
pub mod edid;
pub mod timing;
pub mod tmds;
