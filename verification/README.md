# disc-remuxer

Extraction of elementary streams from DVD-Video discs and their images. The
library under `src/` is verified with Verus: every function carries a contract
over mathematical models, and the properties that span functions stand beside
them as public proof functions. `app/` is the command-line program around it:
argument handling, logging, file output and the calls into libdvdread, libdvdcss
and libdvdnav.

## Layout of the library

| modules | what they hold |
|---------|----------------|
| `text`, `sha256` | number and padding text, tokens, digests |
| `mpegps` | pack headers, PES packets, the walk over a sector |
| `demux` | routing of packets to streams, byte accounting, audio resync |
| `video_es` | separation of user_data from MPEG-2 video, display start |
| `vobsub` | `.sub` sectors and the `.idx` file |
| `ifo`, `decode`, `reader`, `source` | contents of the IFO files and what their fields mean |
| `cell`, `chapters`, `nav_cells` | cells, chapter times and XML, cell lookup |
| `file`, `css`, `detect`, `nav` | what reads, probes, paths and navigation events mean |
| `model`, `selection`, `backend`, `dvd_backend`, `rip`, `list` | titles and tracks, their selection and listing |
| `scan_streams`, `demux_vob`, `demux_title`, `demux_title_nav`, `dump_sectors`, `dump_title`, `dump_title_nav`, `info` | the commands without their I/O |
| `check`, `error` | checks and errors |

The I/O of a command lives in `app/`. It hands plain values to the library: an
IFO file as an `IfoHandle`, a read as a buffer with its outcome, playback as a
stream of events. The library answers with what to write and what to do next.

What is believed without proof: `String::push`, the `Debug` rendering of a
string, `String::from_utf8_lossy`, and `new`, `update` and `finalize` of the
`sha2` crate's SHA-256.
