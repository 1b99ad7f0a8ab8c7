//! Front end of the CeTZ path operations: option parsing, path validation,
//! the inside/outside rules of boolean operations and clipping, and the
//! orchestration of clipping batches.  The floating-point geometry itself
//! (flattening, sweeping, winding numbers) is supplied by the caller as
//! kernel closures; every contract here says exactly what is handed to a
//! kernel and what is done with its answer.

pub mod error;
pub mod fill;
pub mod boolean;
pub mod wire;
pub mod runs;
pub mod chunks;
pub mod polyline;
pub mod path_bool;
pub mod clip_path;
pub mod clip_agreement;

pub use error::{BoolError, PathOpsErr};
pub use fill::{parse_fill_rule, winding_inside, FillRule};
pub use boolean::{parse_bool_op, result_inside, BoolOp};
pub use wire::{WirePath, WireSegment, WireSubpath};
pub use path_bool::{boolean_wire_paths, path_bool, BooleanParams, PathBoolArgs, PathBoolOutput};
pub use clip_path::{
    clip_path, clip_path_batch, ClipKernels, ClipMode, ClipPathArgs, ClipPathBatchArgs,
    ClipPathBatchBody, ClipPathBatchOutput, ClipPathOutput, LineClipParams, area_clip, keeps_piece, line_clip_without_region,
    parse_mode, area_op_for_mode,
};
pub use runs::true_runs;
pub use chunks::{chunks_to_wire, clip_flat_subpath, merge_closed_wraparound, push_chunk, subpath_pieces, LinePiece};
pub use polyline::{flat_polyline, FlatEvent};
