//! What the operations of the library promise, stated over their inputs and
//! results alone.
pub mod chapters;
pub mod decode;
pub mod demux;
pub mod disc;
pub mod ifo;
pub mod info;
pub mod list;
pub mod messages;
pub mod mpegps;
pub mod nav;
pub mod reports;
pub mod scan;
pub mod selection;
pub mod text;
pub mod titles;
pub mod video_es;
pub mod vobsub;
