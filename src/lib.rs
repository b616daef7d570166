//! Service banner grabbing: protocol resolution, banner field extraction and
//! multi-port scan reports, with the network and file work left to the caller.

pub mod text;
pub mod protocol;
pub mod extract;
pub mod banner;
pub mod scan;
pub mod cli;
