//! Verified core of a DVD remuxing tool: the MPEG program stream walk, the
//! elementary stream demuxer, the VobSub writer, chapter timing, title and
//! track selection, and the text reports built on top of them.
#![allow(unused_imports)]

pub mod backend;
pub mod cell;
pub mod chapters;
pub mod check;
pub mod css;
pub mod decode;
pub mod demux;
pub mod demux_title;
pub mod demux_title_nav;
pub mod demux_vob;
pub mod detect;
pub mod dump_sectors;
pub mod dump_title;
pub mod dump_title_nav;
pub mod dvd_backend;
pub mod error;
pub mod file;
pub mod ifo;
pub mod info;
pub mod laws;
pub mod list;
pub mod model;
pub mod mpegps;
pub mod nav;
pub mod nav_cells;
pub mod reader;
pub mod rip;
pub mod scan_streams;
pub mod selection;
pub mod sha256;
pub mod source;
pub mod text;
pub mod video_es;
pub mod vobsub;
